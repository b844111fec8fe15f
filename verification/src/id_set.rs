//! A set of order ids, for telling a repeated id in a batch from a fresh one.
use vstd::prelude::*;
use std::collections::BTreeSet;

verus! {

broadcast use vstd::laws_cmp::group_laws_cmp;

/// Order ids seen so far, held in a `BTreeSet`.
pub struct IdSet {
    ids: BTreeSet<u64>,
}

impl View for IdSet {
    type V = Set<u64>;

    closed spec fn view(&self) -> Set<u64> {
        self.ids@
    }
}

impl IdSet {
    /// No id seen yet.
    pub fn new() -> (s: IdSet)
        ensures
            s@ == Set::<u64>::empty(),
    {
        IdSet { ids: BTreeSet::new() }
    }

    /// Records `id`; the result says whether it was new.
    pub fn insert(&mut self, id: u64) -> (fresh: bool)
        ensures
            final(self)@ == old(self)@.insert(id),
            fresh == !old(self)@.contains(id),
    {
        self.ids.insert(id)
    }
}

} // verus!
