//! What holds of the ledger across calls: recording then filtering, recording
//! twice, batching, and purging.
use vstd::prelude::*;
use crate::ledger::{
    entry_of, item_ids, lemma_without_ids_congruent, record_all, refreshed, unseen, without_ids,
    LedgerEntry, LedgerMap,
};
use crate::model::UndoneListItem;

verus! {

/// Recording adds exactly the identifiers of the recorded items.
pub proof fn lemma_record_domain(m: LedgerMap, items: Seq<UndoneListItem>)
    ensures
        record_all(m, items).dom() == m.dom().union(item_ids(items)),
    decreases items.len(),
{
    if items.len() > 0 {
        let rest = items.drop_last();
        lemma_record_domain(m, rest);
        assert forall|x: Seq<char>| #[trigger] item_ids(items).contains(x) <==> item_ids(rest).contains(x)
            || x == items.last().activity_id@ by {
            if item_ids(items).contains(x) {
                let i = choose|i: int| 0 <= i < items.len() && items[i].activity_id@ == x;
                if i < rest.len() {
                    assert(rest[i] == items[i]);
                }
            }
            if item_ids(rest).contains(x) {
                let i = choose|i: int| 0 <= i < rest.len() && rest[i].activity_id@ == x;
                assert(rest[i] == items[i]);
            }
            if x == items.last().activity_id@ {
                assert(items[items.len() - 1].activity_id@ == x);
            }
        }
        assert(record_all(m, items).dom() =~= m.dom().union(item_ids(items)));
    } else {
        assert(m.dom().union(item_ids(items)) =~= m.dom());
    }
}

/// Batching: recording `a` then `b` is recording `a + b` at once.
pub proof fn lemma_record_concat(m: LedgerMap, a: Seq<UndoneListItem>, b: Seq<UndoneListItem>)
    ensures
        record_all(m, a + b) == record_all(record_all(m, a), b),
    decreases b.len(),
{
    if b.len() == 0 {
        assert(a + b =~= a);
    } else {
        assert((a + b).drop_last() =~= a + b.drop_last());
        assert((a + b).last() == b.last());
        lemma_record_concat(m, a, b.drop_last());
    }
}

/// Filtering a concatenation filters each part.
pub proof fn lemma_without_ids_concat(
    a: Seq<UndoneListItem>,
    b: Seq<UndoneListItem>,
    ids: Set<Seq<char>>,
)
    ensures
        without_ids(a + b, ids) == without_ids(a, ids) + without_ids(b, ids),
    decreases b.len(),
{
    if b.len() == 0 {
        assert(a + b =~= a);
        assert(without_ids(a, ids) + without_ids(b, ids) =~= without_ids(a, ids));
    } else {
        assert((a + b).drop_last() =~= a + b.drop_last());
        assert((a + b).last() == b.last());
        lemma_without_ids_concat(a, b.drop_last(), ids);
        assert(without_ids(a, ids) + without_ids(b.drop_last(), ids).push(b.last()) =~= (
        without_ids(a, ids) + without_ids(b.drop_last(), ids)).push(b.last()));
    }
}

/// Items whose identifiers are all known are all filtered out.
pub proof fn lemma_without_known_ids(items: Seq<UndoneListItem>, ids: Set<Seq<char>>)
    requires
        forall|i: int| 0 <= i < items.len() ==> ids.contains(#[trigger] items[i].activity_id@),
    ensures
        without_ids(items, ids) == Seq::<UndoneListItem>::empty(),
    decreases items.len(),
{
    if items.len() > 0 {
        let rest = items.drop_last();
        assert forall|i: int| 0 <= i < rest.len() implies ids.contains(
            #[trigger] rest[i].activity_id@,
        ) by {
            assert(rest[i] == items[i]);
        }
        lemma_without_known_ids(rest, ids);
        assert(ids.contains(items[items.len() - 1].activity_id@));
    }
}

/// Items whose identifiers are all unknown are all kept, in order.
pub proof fn lemma_without_unknown_ids(items: Seq<UndoneListItem>, ids: Set<Seq<char>>)
    requires
        forall|i: int| 0 <= i < items.len() ==> !ids.contains(#[trigger] items[i].activity_id@),
    ensures
        without_ids(items, ids) == items,
    decreases items.len(),
{
    if items.len() > 0 {
        let rest = items.drop_last();
        assert forall|i: int| 0 <= i < rest.len() implies !ids.contains(
            #[trigger] rest[i].activity_id@,
        ) by {
            assert(rest[i] == items[i]);
        }
        lemma_without_unknown_ids(rest, ids);
        assert(!ids.contains(items[items.len() - 1].activity_id@));
        assert(rest.push(items.last()) =~= items);
    }
}

/// Once `a` is recorded, filtering `a + b`, where no identifier of `b` is one
/// of `a`, leaves what filtering `b` alone left before; in particular it
/// leaves exactly `b` when the ledger knew none of `b`.
pub proof fn lemma_recorded_items_filtered(
    m: LedgerMap,
    a: Seq<UndoneListItem>,
    b: Seq<UndoneListItem>,
)
    requires
        forall|i: int, j: int|
            0 <= i < a.len() && 0 <= j < b.len() ==> #[trigger] a[i].activity_id@
                != #[trigger] b[j].activity_id@,
    ensures
        unseen(record_all(m, a), a + b) == unseen(m, b),
        (forall|j: int| 0 <= j < b.len() ==> !m.contains_key(#[trigger] b[j].activity_id@)) ==> unseen(
            record_all(m, a),
            a + b,
        ) == b,
{
    let r = record_all(m, a);
    lemma_record_domain(m, a);
    lemma_without_ids_concat(a, b, r.dom());
    assert forall|i: int| 0 <= i < a.len() implies r.dom().contains(#[trigger] a[i].activity_id@) by {
        assert(item_ids(a).contains(a[i].activity_id@));
    }
    lemma_without_known_ids(a, r.dom());
    assert forall|j: int| 0 <= j < b.len() implies r.dom().contains(#[trigger] b[j].activity_id@)
        == m.dom().contains(b[j].activity_id@) by {
        if item_ids(a).contains(b[j].activity_id@) {
            let i = choose|i: int| 0 <= i < a.len() && a[i].activity_id@ == b[j].activity_id@;
            assert(a[i].activity_id@ != b[j].activity_id@);
        }
    }
    lemma_without_ids_congruent(b, r.dom(), m.dom());
    assert(Seq::<UndoneListItem>::empty() + without_ids(b, r.dom()) =~= without_ids(b, r.dom()));
    if forall|j: int| 0 <= j < b.len() ==> !m.contains_key(#[trigger] b[j].activity_id@) {
        lemma_without_unknown_ids(b, m.dom());
    }
}

/// Filtering by a union of identifier sets is filtering by one, then the other.
pub proof fn lemma_without_ids_union(items: Seq<UndoneListItem>, x: Set<Seq<char>>, y: Set<Seq<char>>)
    ensures
        without_ids(items, x.union(y)) == without_ids(without_ids(items, y), x),
    decreases items.len(),
{
    if items.len() > 0 {
        let rest = items.drop_last();
        lemma_without_ids_union(rest, x, y);
        let l = items.last();
        if !y.contains(l.activity_id@) {
            let f = without_ids(rest, y);
            assert(without_ids(items, y) == f.push(l));
            assert(f.push(l).drop_last() =~= f);
            assert(f.push(l).last() == l);
        }
    }
}

/// Once `a` is recorded, filtering any list `s` (for instance `a` and `b`
/// interleaved in any way) drops the items of `a`'s identifiers and keeps the
/// others that the ledger had not seen, in their order; when the ledger had
/// seen none of those others, exactly they are left.
pub proof fn lemma_recorded_items_filtered_anywhere(
    m: LedgerMap,
    a: Seq<UndoneListItem>,
    s: Seq<UndoneListItem>,
)
    ensures
        unseen(record_all(m, a), s) == unseen(m, without_ids(s, item_ids(a))),
        (forall|j: int|
            0 <= j < without_ids(s, item_ids(a)).len() ==> !m.contains_key(
                #[trigger] without_ids(s, item_ids(a))[j].activity_id@,
            )) ==> unseen(record_all(m, a), s) == without_ids(s, item_ids(a)),
{
    lemma_record_domain(m, a);
    lemma_without_ids_union(s, m.dom(), item_ids(a));
    let rest = without_ids(s, item_ids(a));
    if forall|j: int| 0 <= j < rest.len() ==> !m.contains_key(#[trigger] rest[j].activity_id@) {
        lemma_without_unknown_ids(rest, m.dom());
    }
}

/// Recording the same items a second time adds no identifier.
pub proof fn lemma_record_idempotent(m: LedgerMap, items: Seq<UndoneListItem>)
    ensures
        record_all(record_all(m, items), items).dom() == record_all(m, items).dom(),
{
    lemma_record_domain(m, items);
    lemma_record_domain(record_all(m, items), items);
    assert(record_all(m, items).dom().union(item_ids(items)) =~= record_all(m, items).dom());
}

/// An empty ledger has seen nothing: every list passes through whole.
pub proof fn lemma_purged_unseen(items: Seq<UndoneListItem>)
    ensures
        unseen(Map::<Seq<char>, LedgerEntry>::empty(), items) == items,
{
    lemma_without_unknown_ids(items, Map::<Seq<char>, LedgerEntry>::empty().dom());
}

/// The last item of `items` with identifier `k`, if any.
pub open spec fn last_with(items: Seq<UndoneListItem>, k: Seq<char>) -> Option<UndoneListItem>
    decreases items.len(),
{
    if items.len() == 0 {
        None
    } else if items.last().activity_id@ == k {
        Some(items.last())
    } else {
        last_with(items.drop_last(), k)
    }
}

/// The first item of `items` with identifier `k`, if any.
pub open spec fn first_with(items: Seq<UndoneListItem>, k: Seq<char>) -> Option<UndoneListItem>
    decreases items.len(),
{
    if items.len() == 0 {
        None
    } else {
        match first_with(items.drop_last(), k) {
            Some(it) => Some(it),
            None => if items.last().activity_id@ == k {
                Some(items.last())
            } else {
                None
            },
        }
    }
}

proof fn lemma_first_last_agree(items: Seq<UndoneListItem>, k: Seq<char>)
    ensures
        first_with(items, k) is Some <==> last_with(items, k) is Some,
    decreases items.len(),
{
    if items.len() > 0 {
        lemma_first_last_agree(items.drop_last(), k);
    }
}

/// The entry that recording `items` leaves under `k`: a key no item carries
/// keeps its entry; otherwise the entry the key had, or the one made from its
/// first item, with due time and status taken from its last item.
pub proof fn lemma_record_entry(m: LedgerMap, items: Seq<UndoneListItem>, k: Seq<char>)
    ensures
        record_all(m, items).contains_key(k) <==> m.contains_key(k) || last_with(items, k) is Some,
        last_with(items, k) is None ==> record_all(m, items)[k] == m[k],
        last_with(items, k) matches Some(l) ==> record_all(m, items)[k] == refreshed(
            if m.contains_key(k) {
                m[k]
            } else {
                entry_of(first_with(items, k)->0)
            },
            l,
        ),
    decreases items.len(),
{
    if items.len() > 0 {
        let rest = items.drop_last();
        lemma_record_entry(m, rest, k);
        lemma_first_last_agree(rest, k);
    }
}

/// Recording the same items twice leaves the ledger as recording them once:
/// no identifier is added and no entry changes.
pub proof fn lemma_record_twice(m: LedgerMap, items: Seq<UndoneListItem>)
    ensures
        record_all(record_all(m, items), items) == record_all(m, items),
{
    let r = record_all(m, items);
    let rr = record_all(r, items);
    assert forall|k: Seq<char>| rr.contains_key(k) <==> r.contains_key(k) by {
        lemma_record_entry(m, items, k);
        lemma_record_entry(r, items, k);
    }
    assert forall|k: Seq<char>| #[trigger] rr.contains_key(k) implies rr[k] == r[k] by {
        lemma_record_entry(m, items, k);
        lemma_record_entry(r, items, k);
    }
    assert(rr =~= r);
}

} // verus!

