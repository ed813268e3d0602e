//! Storage of ledger entries: a vector of entries with unique identifiers,
//! kept in step with the map it stands for.
use vstd::prelude::*;
use crate::ledger::{entry_from, entry_of, refreshed, upsert, LedgerEntry, LedgerMap};
use crate::model::UndoneListItem;

verus! {

/// Entries with unique identifiers, with the map they stand for.
pub struct Table {
    entries: Vec<LedgerEntry>,
    contents: Ghost<LedgerMap>,
}

impl View for Table {
    type V = LedgerMap;

    closed spec fn view(&self) -> LedgerMap {
        self.contents@
    }
}

impl Table {
    /// A table with no entry.
    pub fn empty() -> (r: Table)
        ensures
            r.wf(),
            r@ == Map::<Seq<char>, LedgerEntry>::empty(),
    {
        Table { entries: Vec::new(), contents: Ghost(Map::empty()) }
    }

    /// The number of identifiers held.
    pub fn len(&self) -> (r: usize)
        requires
            self.wf(),
        ensures
            r == self@.dom().len(),
    {
        self.entries.len()
    }

    /// Whether `id` is held.
    pub fn contains(&self, id: &String) -> (r: bool)
        requires
            self.wf(),
        ensures
            r == self@.contains_key(id@),
    {
        self.find(id).is_some()
    }

    /// The entry held under `id`, if any.
    pub fn get(&self, id: &String) -> (r: Option<LedgerEntry>)
        requires
            self.wf(),
        ensures
            r is None <==> !self@.contains_key(id@),
            r matches Some(e) ==> e == self@[id@],
    {
        match self.find(id) {
            Some(i) => Some(self.entries[i].clone()),
            None => None,
        }
    }

    /// The entries and the map agree, and no identifier occurs twice.
    pub closed spec fn wf(&self) -> bool {
        let m = self.contents@;
        let e = self.entries@;
        &&& forall|i: int|
            0 <= i < e.len() ==> #[trigger] m.contains_key(e[i].activity_id@) && m[e[i].activity_id@]
                == e[i]
        &&& forall|k: Seq<char>|
            #[trigger] m.contains_key(k) ==> exists|i: int|
                0 <= i < e.len() && e[i].activity_id@ == k
        &&& forall|i: int, j: int|
            #![trigger e[i], e[j]]
            0 <= i < e.len() && 0 <= j < e.len() && i != j ==> e[i].activity_id@ != e[j].activity_id@
        &&& m.dom().finite()
        &&& m.dom().len() == e.len()
    }

    fn find(&self, id: &String) -> (r: Option<usize>)
        requires
            self.wf(),
        ensures
            r is None ==> !self.contents@.contains_key(id@),
            r matches Some(i) ==> i < self.entries@.len() && self.entries@[i as int].activity_id@
                == id@ && self.contents@.contains_key(id@) && self.contents@[id@]
                == self.entries@[i as int],
    {
        let mut i: usize = 0;
        while i < self.entries.len()
            invariant
                self.wf(),
                i <= self.entries@.len(),
                forall|j: int| 0 <= j < i ==> self.entries@[j].activity_id@ != id@,
            decreases self.entries@.len() - i,
        {
            if self.entries[i].activity_id == *id {
                assert(self.contents@.contains_key(self.entries@[i as int].activity_id@));
                return Some(i);
            }
            i += 1;
        }
        None
    }

    pub fn upsert_one(&mut self, it: &UndoneListItem)
        requires
            old(self).wf(),
        ensures
            final(self).wf(),
            final(self)@ == upsert(old(self)@, *it),
    {
        let ghost m = self.contents@;
        match self.find(&it.activity_id) {
            Some(i) => {
                let ghost old_e = self.entries@[i as int];
                self.entries[i].end_time = it.end_time.clone();
                self.entries[i].evaluation_status = it.evaluation_status;
                let ghost k = it.activity_id@;
                self.contents = Ghost(m.insert(k, refreshed(m[k], *it)));
                proof {
                    assert(m.contains_key(old(self).entries@[i as int].activity_id@));
                    assert(m[k] == old_e);
                    assert forall|i2: int|
                        0 <= i2 < self.entries@.len() implies #[trigger] self.contents@.contains_key(
                        self.entries@[i2].activity_id@,
                    ) && self.contents@[self.entries@[i2].activity_id@] == self.entries@[i2] by {
                        if i2 != i {
                            assert(self.entries@[i2] == old(self).entries@[i2]);
                            assert(m.contains_key(old(self).entries@[i2].activity_id@));
                        }
                    }
                    assert forall|i2: int, j2: int|
                        #![trigger self.entries@[i2], self.entries@[j2]]
                        0 <= i2 < self.entries@.len() && 0 <= j2 < self.entries@.len() && i2
                            != j2 implies self.entries@[i2].activity_id@
                        != self.entries@[j2].activity_id@ by {
                        assert(old(self).entries@[i2].activity_id@ != old(self).entries@[j2].activity_id@);
                    }
                    assert(self.entries@[i as int] == refreshed(old_e, *it));
                    assert(m.dom().insert(k) =~= m.dom());
                    assert forall|k2: Seq<char>| #[trigger] self.contents@.contains_key(k2) implies exists|
                        i2: int,
                    | 0 <= i2 < self.entries@.len() && self.entries@[i2].activity_id@ == k2 by {
                        let i2 = choose|i2: int|
                            0 <= i2 < old(self).entries@.len() && old(self).entries@[i2].activity_id@ == k2;
                        assert(self.entries@[i2].activity_id@ == k2);
                    }
                }
            },
            None => {
                let e = entry_from(it);
                let ghost k = it.activity_id@;
                self.entries.push(e);
                self.contents = Ghost(m.insert(k, entry_of(*it)));
                proof {
                    let n = old(self).entries@.len();
                    assert forall|k2: Seq<char>| #[trigger] self.contents@.contains_key(k2) implies exists|
                        i2: int,
                    | 0 <= i2 < self.entries@.len() && self.entries@[i2].activity_id@ == k2 by {
                        if k2 == k {
                            assert(self.entries@[n as int].activity_id@ == k2);
                        } else {
                            let i2 = choose|i2: int|
                                0 <= i2 < n && old(self).entries@[i2].activity_id@ == k2;
                            assert(self.entries@[i2].activity_id@ == k2);
                        }
                    }
                    assert forall|i2: int|
                        0 <= i2 < self.entries@.len() implies #[trigger] self.contents@.contains_key(
                        self.entries@[i2].activity_id@,
                    ) && self.contents@[self.entries@[i2].activity_id@] == self.entries@[i2] by {
                        if i2 < n {
                            assert(self.entries@[i2] == old(self).entries@[i2]);
                        }
                    }
                }
            },
        }
    }

}

} // verus!
