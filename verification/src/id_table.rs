//! A table keyed by 64-bit ids, kept as a vector of entries in strictly
//! ascending id order, so that walking it visits ids from the lowest up.
use vstd::prelude::*;

verus! {

pub struct IdTable<T> {
    pub entries: Vec<(u64, T)>,
}

/// The ids of `s` strictly increase.
pub open spec fn ascending<T>(s: Seq<(u64, T)>) -> bool {
    forall|i: int, j: int| 0 <= i < j < s.len() ==> (#[trigger] s[i]).0 < (#[trigger] s[j]).0
}

/// The entries of `s` as a map from id to value.
pub open spec fn id_map<T>(s: Seq<(u64, T)>) -> Map<u64, T> {
    Map::new(
        |k: u64| exists|i: int| 0 <= i < s.len() && (#[trigger] s[i]).0 == k,
        |k: u64| s[choose|i: int| 0 <= i < s.len() && (#[trigger] s[i]).0 == k].1,
    )
}

pub proof fn lemma_index_of<T>(s: Seq<(u64, T)>, i: int)
    requires
        ascending(s),
        0 <= i < s.len(),
    ensures
        id_map(s).contains_key(s[i].0),
        id_map(s)[s[i].0] == s[i].1,
{
    let k = s[i].0;
    assert(exists|j: int| 0 <= j < s.len() && (#[trigger] s[j]).0 == k) by {
        assert(s[i].0 == k);
    }
    let j = choose|j: int| 0 <= j < s.len() && (#[trigger] s[j]).0 == k;
    if j < i {
        assert(s[j].0 < s[i].0);
    } else if i < j {
        assert(s[i].0 < s[j].0);
    }
}

pub proof fn lemma_update_map<T>(s: Seq<(u64, T)>, i: int, v: T)
    requires
        ascending(s),
        0 <= i < s.len(),
    ensures
        ascending(s.update(i, (s[i].0, v))),
        id_map(s.update(i, (s[i].0, v))) == id_map(s).insert(s[i].0, v),
{
    let k = s[i].0;
    let t = s.update(i, (k, v));
    assert forall|a: int, b: int| 0 <= a < b < t.len() implies (#[trigger] t[a]).0 < (#[trigger] t[b]).0 by {
        assert(s[a].0 < s[b].0);
    }
    assert forall|x: u64| #[trigger] id_map(t).contains_key(x) == id_map(s).insert(k, v).contains_key(x) by {
        if id_map(t).contains_key(x) {
            let j = choose|j: int| 0 <= j < t.len() && (#[trigger] t[j]).0 == x;
            assert(s[j].0 == x);
        }
        if id_map(s).contains_key(x) {
            let j = choose|j: int| 0 <= j < s.len() && (#[trigger] s[j]).0 == x;
            assert(t[j].0 == x);
        }
        if x == k {
            assert(t[i].0 == x);
        }
    }
    assert forall|x: u64| #[trigger] id_map(t).contains_key(x) implies id_map(t)[x] == id_map(s).insert(k, v)[x] by {
        let j = choose|j: int| 0 <= j < t.len() && (#[trigger] t[j]).0 == x;
        lemma_index_of(t, j);
        if j != i {
            lemma_index_of(s, j);
        }
    }
    assert(id_map(t) =~= id_map(s).insert(k, v));
}

pub proof fn lemma_remove_map<T>(s: Seq<(u64, T)>, i: int)
    requires
        ascending(s),
        0 <= i < s.len(),
    ensures
        ascending(s.remove(i)),
        id_map(s.remove(i)) == id_map(s).remove(s[i].0),
{
    let k = s[i].0;
    let t = s.remove(i);
    assert forall|a: int, b: int| 0 <= a < b < t.len() implies (#[trigger] t[a]).0 < (#[trigger] t[b]).0 by {
        let a0 = if a < i { a } else { a + 1 };
        let b0 = if b < i { b } else { b + 1 };
        assert(t[a] == s[a0]);
        assert(t[b] == s[b0]);
        assert(s[a0].0 < s[b0].0);
    }
    assert forall|x: u64| #[trigger] id_map(t).contains_key(x) == id_map(s).remove(k).contains_key(x) by {
        if id_map(t).contains_key(x) {
            let j = choose|j: int| 0 <= j < t.len() && (#[trigger] t[j]).0 == x;
            let j0 = if j < i { j } else { j + 1 };
            assert(t[j] == s[j0]);
            assert(s[j0].0 == x);
            if j0 < i {
                assert(s[j0].0 < s[i].0);
            } else {
                assert(s[i].0 < s[j0].0);
            }
        }
        if id_map(s).contains_key(x) && x != k {
            let j = choose|j: int| 0 <= j < s.len() && (#[trigger] s[j]).0 == x;
            assert(j != i);
            let j1 = if j < i { j } else { j - 1 };
            assert(t[j1] == s[j]);
            assert(t[j1].0 == x);
        }
    }
    assert forall|x: u64| #[trigger] id_map(t).contains_key(x) implies id_map(t)[x] == id_map(s).remove(k)[x] by {
        let j = choose|j: int| 0 <= j < t.len() && (#[trigger] t[j]).0 == x;
        lemma_index_of(t, j);
        let j0 = if j < i { j } else { j + 1 };
        assert(t[j] == s[j0]);
        lemma_index_of(s, j0);
    }
    assert(id_map(t) =~= id_map(s).remove(k));
}

pub proof fn lemma_insert_map<T>(s: Seq<(u64, T)>, p: int, k: u64, v: T)
    requires
        ascending(s),
        0 <= p <= s.len(),
        forall|j: int| 0 <= j < p ==> (#[trigger] s[j]).0 < k,
        forall|j: int| p <= j < s.len() ==> (#[trigger] s[j]).0 > k,
    ensures
        ascending(s.insert(p, (k, v))),
        id_map(s.insert(p, (k, v))) == id_map(s).insert(k, v),
        !id_map(s).contains_key(k),
{
    let t = s.insert(p, (k, v));
    s.insert_ensures(p, (k, v));
    assert forall|j: int| p < j < t.len() implies #[trigger] t[j] == s[j - 1] by {
        assert(t[(j - 1) + 1] == s[j - 1]);
    }
    assert forall|a: int, b: int| 0 <= a < b < t.len() implies (#[trigger] t[a]).0 < (#[trigger] t[b]).0 by {
        if a < p {
            assert(t[a] == s[a]);
            if b < p {
                assert(t[b] == s[b]);
                assert(s[a].0 < s[b].0);
            } else if b > p {
                assert(t[b] == s[b - 1]);
            }
        } else if a == p {
            assert(t[b] == s[b - 1]);
        } else {
            assert(t[a] == s[a - 1]);
            assert(t[b] == s[b - 1]);
            assert(s[a - 1].0 < s[b - 1].0);
        }
    }
    if id_map(s).contains_key(k) {
        let j = choose|j: int| 0 <= j < s.len() && (#[trigger] s[j]).0 == k;
        if j < p {
        } else {
        }
    }
    assert forall|x: u64| #[trigger] id_map(t).contains_key(x) == id_map(s).insert(k, v).contains_key(x) by {
        if id_map(t).contains_key(x) {
            let j = choose|j: int| 0 <= j < t.len() && (#[trigger] t[j]).0 == x;
            if j < p {
                assert(t[j] == s[j]);
            } else if j > p {
                assert(t[j] == s[j - 1]);
                assert(s[j - 1].0 == x);
            }
        }
        if id_map(s).contains_key(x) {
            let j = choose|j: int| 0 <= j < s.len() && (#[trigger] s[j]).0 == x;
            if j < p {
                assert(t[j] == s[j]);
                assert(t[j].0 == x);
            } else {
                assert(t[j + 1] == s[j]);
                assert(t[j + 1].0 == x);
            }
        }
        if x == k {
            assert(t[p].0 == x);
        }
    }
    assert forall|x: u64| #[trigger] id_map(t).contains_key(x) implies id_map(t)[x] == id_map(s).insert(k, v)[x] by {
        let j = choose|j: int| 0 <= j < t.len() && (#[trigger] t[j]).0 == x;
        lemma_index_of(t, j);
        if j < p {
            assert(t[j] == s[j]);
            lemma_index_of(s, j);
        } else if j > p {
            assert(t[j] == s[j - 1]);
            lemma_index_of(s, j - 1);
        }
    }
    assert(id_map(t) =~= id_map(s).insert(k, v));
}

impl<T> IdTable<T> {
    pub open spec fn wf(&self) -> bool {
        ascending(self.entries@)
    }

    pub open spec fn view(&self) -> Map<u64, T> {
        id_map(self.entries@)
    }

    pub fn new() -> (r: IdTable<T>)
        ensures
            r.wf(),
            r@ == Map::<u64, T>::empty(),
            r.entries@.len() == 0,
    {
        let r = IdTable { entries: Vec::new() };
        assert(r@ =~= Map::<u64, T>::empty());
        r
    }

    pub fn len(&self) -> (r: usize)
        ensures
            r == self.entries@.len(),
    {
        self.entries.len()
    }

    /// Position of `id`, if present.
    pub fn find(&self, id: u64) -> (r: Option<usize>)
        requires
            self.wf(),
        ensures
            r is None <==> !self@.contains_key(id),
            r matches Some(i) ==> i < self.entries@.len() && self.entries@[i as int].0 == id && self@[id]
                == self.entries@[i as int].1,
    {
        let mut i: usize = 0;
        while i < self.entries.len()
            invariant
                self.wf(),
                i <= self.entries@.len(),
                forall|j: int| 0 <= j < i ==> (#[trigger] self.entries@[j]).0 != id,
            decreases self.entries@.len() - i,
        {
            if self.entries[i].0 == id {
                proof {
                    lemma_index_of(self.entries@, i as int);
                }
                return Some(i);
            }
            i = i + 1;
        }
        None
    }

    pub fn contains(&self, id: u64) -> (r: bool)
        requires
            self.wf(),
        ensures
            r == self@.contains_key(id),
    {
        self.find(id).is_some()
    }

    pub fn get(&self, id: u64) -> (r: Option<&T>)
        requires
            self.wf(),
        ensures
            r is Some <==> self@.contains_key(id),
            r matches Some(v) ==> *v == self@[id],
    {
        match self.find(id) {
            Some(i) => Some(&self.entries[i].1),
            None => None,
        }
    }

    /// Add `id`, which must be absent, keeping ids ascending.
    pub fn insert(&mut self, id: u64, value: T)
        requires
            old(self).wf(),
            !old(self)@.contains_key(id),
        ensures
            final(self).wf(),
            final(self)@ == old(self)@.insert(id, value),
    {
        let mut p: usize = 0;
        while p < self.entries.len() && self.entries[p].0 < id
            invariant
                self.wf(),
                p <= self.entries@.len(),
                forall|j: int| 0 <= j < p ==> (#[trigger] self.entries@[j]).0 < id,
            decreases self.entries@.len() - p,
        {
            p = p + 1;
        }
        proof {
            let s = self.entries@;
            if p < s.len() {
                assert(s[p as int].0 >= id);
                if s[p as int].0 == id {
                    lemma_index_of(s, p as int);
                }
                assert forall|j: int| p <= j < s.len() implies (#[trigger] s[j]).0 > id by {
                    if j > p {
                        assert(s[p as int].0 < s[j].0);
                    }
                }
            }
            lemma_insert_map(s, p as int, id, value);
        }
        self.entries.insert(p, (id, value));
    }

    /// Replace the value of `id`, which must be present.
    pub fn replace(&mut self, id: u64, value: T)
        requires
            old(self).wf(),
            old(self)@.contains_key(id),
        ensures
            final(self).wf(),
            final(self)@ == old(self)@.insert(id, value),
            final(self).entries@.len() == old(self).entries@.len(),
    {
        match self.find(id) {
            Some(i) => {
                proof {
                    lemma_update_map(self.entries@, i as int, value);
                }
                self.entries.set(i, (id, value));
            },
            None => {},
        }
    }

    /// Drop `id`, if present.
    pub fn remove(&mut self, id: u64)
        requires
            old(self).wf(),
        ensures
            final(self).wf(),
            final(self)@ == old(self)@.remove(id),
    {
        match self.find(id) {
            Some(i) => {
                proof {
                    lemma_remove_map(self.entries@, i as int);
                }
                self.entries.remove(i);
            },
            None => {
                assert(self@ =~= self@.remove(id));
            },
        }
    }
}

} // verus!
