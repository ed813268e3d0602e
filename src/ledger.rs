//! The dedup ledger: the set of identifiers already announced, how a fetched
//! list is filtered against it, and how sightings are recorded into it.
//!
//! An item is new purely because its identifier is absent from the ledger;
//! content changes of a known item are absorbed into its entry and never make
//! it new again.
use vstd::prelude::*;
use crate::chunk::{chunk_ranges, is_chunking, lemma_chunk_step, lemma_chunking_empty, CHUNK_SIZE};
use crate::model::{copy_opt_string, CourseInfo, UndoneList, UndoneListItem};
use crate::laws::lemma_purged_unseen;
use crate::table::Table;

verus! {

/// One persisted row of the ledger, keyed by `activity_id`.
pub struct LedgerEntry {
    pub activity_id: String,
    pub activity_name: String,
    pub kind: i32,
    pub end_time: String,
    pub assignment_type: i32,
    pub evaluation_status: i32,
    pub is_open_evaluation: i32,
    pub course_info: Option<CourseInfo>,
    pub description: Option<String>,
    pub start_time: Option<String>,
}

impl Clone for LedgerEntry {
    fn clone(&self) -> (r: Self)
        ensures
            r == *self,
    {
        LedgerEntry {
            activity_id: self.activity_id.clone(),
            activity_name: self.activity_name.clone(),
            kind: self.kind,
            end_time: self.end_time.clone(),
            assignment_type: self.assignment_type,
            evaluation_status: self.evaluation_status,
            is_open_evaluation: self.is_open_evaluation,
            course_info: match &self.course_info {
                Some(c) => Some(c.clone()),
                None => None,
            },
            description: copy_opt_string(&self.description),
            start_time: copy_opt_string(&self.start_time),
        }
    }
}

/// The ledger's contents: each known identifier with its entry.
pub type LedgerMap = Map<Seq<char>, LedgerEntry>;

/// The entry created the first time an item is seen.
pub open spec fn entry_of(it: UndoneListItem) -> LedgerEntry {
    LedgerEntry {
        activity_id: it.activity_id,
        activity_name: it.activity_name,
        kind: it.kind,
        end_time: it.end_time,
        assignment_type: it.assignment_type,
        evaluation_status: it.evaluation_status,
        is_open_evaluation: it.is_open_evaluation,
        course_info: it.course_info,
        description: it.description,
        start_time: it.start_time,
    }
}

/// A known entry seen again: due time and status are refreshed, every other
/// field keeps its first value.
pub open spec fn refreshed(e: LedgerEntry, it: UndoneListItem) -> LedgerEntry {
    LedgerEntry { end_time: it.end_time, evaluation_status: it.evaluation_status, ..e }
}

/// Insert-or-update of one item.
pub open spec fn upsert(m: LedgerMap, it: UndoneListItem) -> LedgerMap {
    let k = it.activity_id@;
    if m.contains_key(k) {
        m.insert(k, refreshed(m[k], it))
    } else {
        m.insert(k, entry_of(it))
    }
}

/// The ledger after upserting `items` one after another, in order.
pub open spec fn record_all(m: LedgerMap, items: Seq<UndoneListItem>) -> LedgerMap
    decreases items.len(),
{
    if items.len() == 0 {
        m
    } else {
        upsert(record_all(m, items.drop_last()), items.last())
    }
}

/// The items whose identifier is not in `ids`, in the order they come.
pub open spec fn without_ids(items: Seq<UndoneListItem>, ids: Set<Seq<char>>) -> Seq<
    UndoneListItem,
>
    decreases items.len(),
{
    if items.len() == 0 {
        Seq::empty()
    } else {
        let rest = without_ids(items.drop_last(), ids);
        if ids.contains(items.last().activity_id@) {
            rest
        } else {
            rest.push(items.last())
        }
    }
}

/// The items of `items` that the ledger `m` has not seen.
pub open spec fn unseen(m: LedgerMap, items: Seq<UndoneListItem>) -> Seq<UndoneListItem> {
    without_ids(items, m.dom())
}

/// The identifiers held by a sequence of strings.
pub open spec fn id_set(v: Seq<String>) -> Set<Seq<char>> {
    Set::new(|x: Seq<char>| exists|i: int| 0 <= i < v.len() && v[i]@ == x)
}

/// The identifiers of a sequence of items.
pub open spec fn item_ids(items: Seq<UndoneListItem>) -> Set<Seq<char>> {
    Set::new(|x: Seq<char>| exists|i: int| 0 <= i < items.len() && items[i].activity_id@ == x)
}

/// Whether `s` occurs in `v`.
pub fn contains_string(v: &Vec<String>, s: &String) -> (r: bool)
    ensures
        r == id_set(v@).contains(s@),
{
    let mut i: usize = 0;
    while i < v.len()
        invariant
            i <= v@.len(),
            forall|j: int| 0 <= j < i ==> v@[j]@ != s@,
        decreases v@.len() - i,
    {
        if v[i] == *s {
            return true;
        }
        i += 1;
    }
    false
}

/// The fetched list without the items whose identifier is in `existing_ids`:
/// same site count, the remaining items in their order, and their number.
pub fn filter_pushed_undone_list(undone_list: &UndoneList, existing_ids: &Vec<String>) -> (r:
    UndoneList)
    requires
        undone_list.undone_list@.len() <= i32::MAX,
    ensures
        r.site_num == undone_list.site_num,
        r.undone_list@ == without_ids(undone_list.undone_list@, id_set(existing_ids@)),
        r.undone_num == r.undone_list@.len(),
        undone_list.undone_list@.len() == 0 ==> r.undone_list@.len() == 0 && r.undone_num == 0,
{
    let items = &undone_list.undone_list;
    let ghost ids = id_set(existing_ids@);
    let mut kept: Vec<UndoneListItem> = Vec::new();
    let mut i: usize = 0;
    while i < items.len()
        invariant
            i <= items@.len(),
            items@.len() <= i32::MAX,
            ids == id_set(existing_ids@),
            kept@ == without_ids(items@.take(i as int), ids),
            kept@.len() <= i,
        decreases items@.len() - i,
    {
        assert(items@.take(i + 1).drop_last() =~= items@.take(i as int));
        assert(items@.take(i + 1).last() == items@[i as int]);
        let present = contains_string(existing_ids, &items[i].activity_id);
        if !present {
            kept.push(items[i].clone());
        }
        i += 1;
    }
    assert(items@.take(items@.len() as int) =~= items@);
    let n = kept.len() as i32;
    UndoneList { site_num: undone_list.site_num, undone_num: n, undone_list: kept }
}

/// The identifiers of `items[lo..hi]`, in order.
pub fn ids_in_range(items: &Vec<UndoneListItem>, lo: usize, hi: usize) -> (r: Vec<String>)
    requires
        lo <= hi <= items@.len(),
    ensures
        r@.len() == hi - lo,
        forall|t: int| 0 <= t < hi - lo ==> #[trigger] r@[t]@ == items@[lo + t].activity_id@,
{
    let mut r: Vec<String> = Vec::new();
    let mut i: usize = lo;
    while i < hi
        invariant
            lo <= i <= hi <= items@.len(),
            r@.len() == i - lo,
            forall|t: int| 0 <= t < i - lo ==> #[trigger] r@[t]@ == items@[lo + t].activity_id@,
        decreases hi - i,
    {
        r.push(items[i].activity_id.clone());
        i += 1;
    }
    r
}

/// Creates the entry for an item seen for the first time.
pub fn entry_from(it: &UndoneListItem) -> (e: LedgerEntry)
    ensures
        e == entry_of(*it),
{
    LedgerEntry {
        activity_id: it.activity_id.clone(),
        activity_name: it.activity_name.clone(),
        kind: it.kind,
        end_time: it.end_time.clone(),
        assignment_type: it.assignment_type,
        evaluation_status: it.evaluation_status,
        is_open_evaluation: it.is_open_evaluation,
        course_info: match &it.course_info {
            Some(c) => Some(c.clone()),
            None => None,
        },
        description: copy_opt_string(&it.description),
        start_time: copy_opt_string(&it.start_time),
    }
}

/// An in-memory ledger: entries with unique identifiers, the single-slot
/// cursor, and the batch size used for its queries and writes.
pub struct Ledger {
    table: Table,
    cursor: Option<String>,
    chunk_size: usize,
}

impl View for Ledger {
    type V = LedgerMap;

    closed spec fn view(&self) -> LedgerMap {
        self.table@
    }
}

impl Ledger {
    /// The stored entries are well formed and the batch size is positive.
    pub closed spec fn wf(&self) -> bool {
        self.chunk_size > 0 && self.table.wf()
    }

    /// The batch size of this ledger's queries and writes.
    pub closed spec fn chunk(&self) -> nat {
        self.chunk_size as nat
    }

    /// The stored cursor.
    pub closed spec fn cursor_view(&self) -> Option<String> {
        self.cursor
    }

    /// An empty ledger that works in batches of `CHUNK_SIZE`.
    pub fn new() -> (r: Ledger)
        ensures
            r.wf(),
            r@ == Map::<Seq<char>, LedgerEntry>::empty(),
            r.chunk() == CHUNK_SIZE,
            r.cursor_view() == None::<String>,
    {
        Ledger::with_chunk_size(CHUNK_SIZE)
    }

    /// An empty ledger that works in batches of `chunk_size`.
    pub fn with_chunk_size(chunk_size: usize) -> (r: Ledger)
        requires
            chunk_size > 0,
        ensures
            r.wf(),
            r@ == Map::<Seq<char>, LedgerEntry>::empty(),
            r.chunk() == chunk_size,
            r.cursor_view() == None::<String>,
    {
        Ledger { table: Table::empty(), cursor: None, chunk_size }
    }

    /// The batch size of this ledger's queries and writes.
    pub fn chunk_size(&self) -> (r: usize)
        ensures
            r == self.chunk(),
    {
        self.chunk_size
    }

    /// The number of identifiers in the ledger.
    pub fn len(&self) -> (r: usize)
        requires
            self.wf(),
        ensures
            r == self@.dom().len(),
    {
        self.table.len()
    }

    /// Whether the ledger knows `id`.
    pub fn contains(&self, id: &String) -> (r: bool)
        requires
            self.wf(),
        ensures
            r == self@.contains_key(id@),
    {
        self.table.contains(id)
    }

    /// The entry recorded under `id`, if any.
    pub fn get(&self, id: &String) -> (r: Option<LedgerEntry>)
        requires
            self.wf(),
        ensures
            r is None <==> !self@.contains_key(id@),
            r matches Some(e) ==> e == self@[id@],
    {
        self.table.get(id)
    }

    /// One batch query: those of `ids` that the ledger knows.
    pub fn select_existing(&self, ids: &Vec<String>) -> (r: Vec<String>)
        requires
            self.wf(),
        ensures
            forall|x: Seq<char>|
                #[trigger] id_set(r@).contains(x) <==> id_set(ids@).contains(x)
                    && self@.contains_key(x),
    {
        let mut r: Vec<String> = Vec::new();
        let mut i: usize = 0;
        while i < ids.len()
            invariant
                self.wf(),
                i <= ids@.len(),
                forall|x: Seq<char>|
                    #[trigger] id_set(r@).contains(x) <==> (exists|j: int|
                        0 <= j < i && ids@[j]@ == x) && self@.contains_key(x),
            decreases ids@.len() - i,
        {
            let ghost before = r@;
            if self.contains(&ids[i]) {
                r.push(ids[i].clone());
                proof {
                    assert forall|x: Seq<char>| #[trigger] id_set(r@).contains(x) implies id_set(
                        before,
                    ).contains(x) || x == ids@[i as int]@ by {
                        let j = choose|j: int| 0 <= j < r@.len() && r@[j]@ == x;
                        if j < before.len() {
                            assert(before[j] == r@[j]);
                        }
                    }
                    assert forall|x: Seq<char>| id_set(before).contains(x) implies #[trigger] id_set(
                        r@,
                    ).contains(x) by {
                        let j = choose|j: int| 0 <= j < before.len() && before[j]@ == x;
                        assert(r@[j] == before[j]);
                    }
                    assert(r@[before.len() as int] == ids@[i as int]);
                    assert(id_set(r@).contains(ids@[i as int]@));
                }
            }
            i += 1;
        }
        r
    }

    /// The items of `list` that the ledger has not seen, in their order, with
    /// the site count kept and the item count set to their number. The
    /// identifiers are looked up one batch of `chunk()` at a time, and none is
    /// looked up when the list is empty.
    pub fn filter_unseen(&self, list: &UndoneList) -> (r: UndoneList)
        requires
            self.wf(),
            list.undone_list@.len() <= i32::MAX,
        ensures
            r.site_num == list.site_num,
            r.undone_list@ == unseen(self@, list.undone_list@),
            r.undone_num == r.undone_list@.len(),
            list.undone_list@.len() == 0 ==> r.undone_list@.len() == 0 && r.undone_num == 0,
            self@ == Map::<Seq<char>, LedgerEntry>::empty() ==> r.undone_list@ == list.undone_list@,
    {
        proof {
            lemma_purged_unseen(list.undone_list@);
        }
        let items = &list.undone_list;
        let ranges = chunk_ranges(items.len(), self.chunk_size);
        let mut existing: Vec<String> = Vec::new();
        let mut covered: usize = 0;
        let mut j: usize = 0;
        while j < ranges.len()
            invariant
                self.wf(),
                is_chunking(ranges@, items@.len(), self.chunk()),
                j <= ranges@.len(),
                j == 0 ==> covered == 0,
                j > 0 ==> covered == ranges@[j - 1].1,
                forall|x: Seq<char>| #[trigger] id_set(existing@).contains(x) ==> self@.contains_key(x),
                forall|t: int|
                    0 <= t < covered && self@.contains_key(#[trigger] items@[t].activity_id@)
                        ==> id_set(existing@).contains(items@[t].activity_id@),
            decreases ranges@.len() - j,
        {
            let (lo, hi) = ranges[j];
            proof {
                lemma_chunk_step(ranges@, items@.len(), self.chunk(), j as int);
            }
            let ids = ids_in_range(items, lo, hi);
            let mut found = self.select_existing(&ids);
            let ghost before = existing@;
            let ghost got = found@;
            existing.append(&mut found);
            proof {
                assert(existing@ == before + got);
                lemma_id_set_concat(before, got);
                assert forall|t: int|
                    0 <= t < hi && self@.contains_key(#[trigger] items@[t].activity_id@) implies id_set(
                    existing@,
                ).contains(items@[t].activity_id@) by {
                    if t >= lo {
                        assert(ids@[t - lo]@ == items@[lo + (t - lo)].activity_id@);
                        assert(id_set(ids@).contains(items@[t].activity_id@));
                    }
                }
            }
            covered = hi;
            j += 1;
        }
        proof {
            lemma_chunking_empty(ranges@, items@.len(), self.chunk());
            if j > 0 {
                lemma_chunk_step(ranges@, items@.len(), self.chunk(), j - 1);
            }
            assert(covered == items@.len());
            lemma_without_ids_congruent(items@, id_set(existing@), self@.dom());
        }
        filter_pushed_undone_list(list, &existing)
    }

    /// Upserts every item, in order, one batch of `chunk()` at a time: a new
    /// identifier gets a fresh entry, a known one has its due time and status
    /// refreshed. The result is that of upserting the whole list at once, and
    /// nothing is written when the list is empty.
    pub fn record(&mut self, items: &Vec<UndoneListItem>)
        requires
            old(self).wf(),
        ensures
            final(self).wf(),
            final(self)@ == record_all(old(self)@, items@),
            final(self).chunk() == old(self).chunk(),
            final(self).cursor_view() == old(self).cursor_view(),
    {
        let ranges = chunk_ranges(items.len(), self.chunk_size);
        let mut covered: usize = 0;
        let mut j: usize = 0;
        while j < ranges.len()
            invariant
                self.wf(),
                self.chunk() == old(self).chunk(),
                self.cursor_view() == old(self).cursor_view(),
                is_chunking(ranges@, items@.len(), self.chunk()),
                j <= ranges@.len(),
                j == 0 ==> covered == 0,
                j > 0 ==> covered == ranges@[j - 1].1,
                covered <= items@.len(),
                self@ == record_all(old(self)@, items@.take(covered as int)),
            decreases ranges@.len() - j,
        {
            let (lo, hi) = ranges[j];
            proof {
                lemma_chunk_step(ranges@, items@.len(), self.chunk(), j as int);
            }
            self.record_range(items, lo, hi, Ghost(old(self)@));
            covered = hi;
            j += 1;
        }
        proof {
            lemma_chunking_empty(ranges@, items@.len(), self.chunk());
            if j > 0 {
                lemma_chunk_step(ranges@, items@.len(), self.chunk(), j - 1);
            }
        }
        assert(items@.take(items@.len() as int) =~= items@);
    }

    fn record_range(&mut self, items: &Vec<UndoneListItem>, lo: usize, hi: usize, start: Ghost<LedgerMap>)
        requires
            old(self).wf(),
            lo <= hi <= items@.len(),
            old(self)@ == record_all(start@, items@.take(lo as int)),
        ensures
            final(self).wf(),
            final(self)@ == record_all(start@, items@.take(hi as int)),
            final(self).chunk() == old(self).chunk(),
            final(self).cursor_view() == old(self).cursor_view(),
    {
        let mut t: usize = lo;
        while t < hi
            invariant
                self.wf(),
                self.chunk() == old(self).chunk(),
                self.cursor_view() == old(self).cursor_view(),
                lo <= t <= hi <= items@.len(),
                self@ == record_all(start@, items@.take(t as int)),
            decreases hi - t,
        {
            self.table.upsert_one(&items[t]);
            assert(items@.take(t + 1).drop_last() =~= items@.take(t as int));
            assert(items@.take(t + 1).last() == items@[t as int]);
            t += 1;
        }
    }

    /// Deletes every entry; the cursor is kept.
    pub fn purge(&mut self)
        requires
            old(self).wf(),
        ensures
            final(self).wf(),
            final(self)@ == Map::<Seq<char>, LedgerEntry>::empty(),
            final(self).chunk() == old(self).chunk(),
            final(self).cursor_view() == old(self).cursor_view(),
    {
        self.table = Table::empty();
    }

    /// The stored cursor, if one was set.
    pub fn get_cursor(&self) -> (r: Option<String>)
        ensures
            r == self.cursor_view(),
    {
        copy_opt_string(&self.cursor)
    }

    /// Stores `token` as the cursor, replacing any earlier one.
    pub fn set_cursor(&mut self, token: String)
        requires
            old(self).wf(),
        ensures
            final(self).wf(),
            final(self).cursor_view() == Some(token),
            final(self)@ == old(self)@,
            final(self).chunk() == old(self).chunk(),
    {
        self.cursor = Some(token);
    }
}

/// The identifiers of a concatenation are those of its two parts.
pub proof fn lemma_id_set_concat(a: Seq<String>, b: Seq<String>)
    ensures
        forall|x: Seq<char>|
            #[trigger] id_set(a + b).contains(x) <==> id_set(a).contains(x) || id_set(b).contains(x),
{
    assert forall|x: Seq<char>| #[trigger] id_set(a + b).contains(x) implies id_set(a).contains(x)
        || id_set(b).contains(x) by {
        let k = choose|k: int| 0 <= k < (a + b).len() && (a + b)[k]@ == x;
        if k < a.len() {
            assert((a + b)[k] == a[k]);
        } else {
            assert((a + b)[k] == b[k - a.len()]);
        }
    }
    assert forall|x: Seq<char>| id_set(a).contains(x) || id_set(b).contains(x) implies #[trigger] id_set(
        a + b,
    ).contains(x) by {
        if id_set(a).contains(x) {
            let k = choose|k: int| 0 <= k < a.len() && a[k]@ == x;
            assert((a + b)[k] == a[k]);
        } else {
            let k = choose|k: int| 0 <= k < b.len() && b[k]@ == x;
            assert((a + b)[a.len() + k] == b[k]);
        }
    }
}

/// Filtering by two identifier sets that agree on every item's identifier
/// gives the same items.
pub proof fn lemma_without_ids_congruent(
    items: Seq<UndoneListItem>,
    a: Set<Seq<char>>,
    b: Set<Seq<char>>,
)
    requires
        forall|t: int| 0 <= t < items.len() ==> a.contains(#[trigger] items[t].activity_id@) == b.contains(
            items[t].activity_id@,
        ),
    ensures
        without_ids(items, a) == without_ids(items, b),
    decreases items.len(),
{
    if items.len() > 0 {
        let rest = items.drop_last();
        assert forall|t: int| 0 <= t < rest.len() implies a.contains(
            #[trigger] rest[t].activity_id@,
        ) == b.contains(rest[t].activity_id@) by {
            assert(rest[t] == items[t]);
        }
        lemma_without_ids_congruent(rest, a, b);
        assert(items.last() == items[items.len() - 1]);
    }
}

} // verus!
