//! A small map from account addresses to values, kept as a vector of entries
//! with pairwise distinct keys, and the running total of a book of amounts.
use vstd::prelude::*;
use vstd::string::StrSliceExecFns;

verus! {

/// Entries keyed by address; each address occurs at most once.
pub struct Book<T> {
    pub entries: Vec<(String, T)>,
}

/// The keys of `s` are pairwise distinct.
pub open spec fn distinct_keys<T>(s: Seq<(String, T)>) -> bool {
    forall|i: int, j: int| 0 <= i < s.len() && 0 <= j < s.len() && i != j ==> s[i].0@ != s[j].0@
}

/// The key/value pairs of `s` as a map from address text to value.
pub open spec fn entries_map<T>(s: Seq<(String, T)>) -> Map<Seq<char>, T> {
    Map::new(
        |k: Seq<char>| exists|i: int| 0 <= i < s.len() && s[i].0@ == k,
        |k: Seq<char>| s[choose|i: int| 0 <= i < s.len() && s[i].0@ == k].1,
    )
}

/// Sum of the amounts of `s`.
pub open spec fn seq_total(s: Seq<(String, u128)>) -> int
    decreases s.len(),
{
    if s.len() == 0 {
        0
    } else {
        seq_total(s.drop_last()) + s.last().1
    }
}

pub proof fn lemma_total_nonneg(s: Seq<(String, u128)>)
    ensures
        seq_total(s) >= 0,
    decreases s.len(),
{
    if s.len() > 0 {
        lemma_total_nonneg(s.drop_last());
    }
}

pub proof fn lemma_total_update(s: Seq<(String, u128)>, i: int, x: (String, u128))
    requires
        0 <= i < s.len(),
    ensures
        seq_total(s.update(i, x)) == seq_total(s) - s[i].1 + x.1,
    decreases s.len(),
{
    if i == s.len() - 1 {
        assert(s.update(i, x).drop_last() =~= s.drop_last());
    } else {
        lemma_total_update(s.drop_last(), i, x);
        assert(s.update(i, x).drop_last() =~= s.drop_last().update(i, x));
    }
}

pub proof fn lemma_total_remove(s: Seq<(String, u128)>, i: int)
    requires
        0 <= i < s.len(),
    ensures
        seq_total(s.remove(i)) == seq_total(s) - s[i].1,
    decreases s.len(),
{
    if i == s.len() - 1 {
        assert(s.remove(i) =~= s.drop_last());
    } else {
        lemma_total_remove(s.drop_last(), i);
        assert(s.remove(i).drop_last() =~= s.drop_last().remove(i));
    }
}

pub proof fn lemma_entry_le_total(s: Seq<(String, u128)>, i: int)
    requires
        0 <= i < s.len(),
    ensures
        s[i].1 <= seq_total(s),
    decreases s.len(),
{
    lemma_total_nonneg(s.drop_last());
    if i < s.len() - 1 {
        lemma_entry_le_total(s.drop_last(), i);
    }
}

pub proof fn lemma_map_update<T>(s: Seq<(String, T)>, i: int, key: String, value: T)
    requires
        distinct_keys(s),
        0 <= i < s.len(),
        s[i].0@ == key@,
    ensures
        distinct_keys(s.update(i, (key, value))),
        entries_map(s.update(i, (key, value))) == entries_map(s).insert(key@, value),
{
    let s2 = s.update(i, (key, value));
    assert forall|k: Seq<char>| #[trigger] entries_map(s2).contains_key(k) implies entries_map(s2)[k] == entries_map(s).insert(key@, value)[k] by {
        let j = choose|j: int| 0 <= j < s2.len() && s2[j].0@ == k;
        if k == key@ {
            assert(j == i);
        } else {
            assert(s[j].0@ == k);
            let j0 = choose|j0: int| 0 <= j0 < s.len() && s[j0].0@ == k;
            assert(j0 == j);
        }
    }
    assert forall|k: Seq<char>| entries_map(s).insert(key@, value).contains_key(k) implies #[trigger] entries_map(s2).contains_key(k) by {
        if k != key@ {
            let j = choose|j: int| 0 <= j < s.len() && s[j].0@ == k;
            assert(s2[j].0@ == k);
        } else {
            assert(s2[i].0@ == k);
        }
    }
    assert(entries_map(s2) =~= entries_map(s).insert(key@, value));
}

pub proof fn lemma_map_push<T>(s: Seq<(String, T)>, key: String, value: T)
    requires
        distinct_keys(s),
        !entries_map(s).contains_key(key@),
    ensures
        distinct_keys(s.push((key, value))),
        entries_map(s.push((key, value))) == entries_map(s).insert(key@, value),
{
    let s2 = s.push((key, value));
    let n = s.len() as int;
    assert(s2[n].0@ == key@);
    assert forall|a: int, b: int| 0 <= a < s2.len() && 0 <= b < s2.len() && a != b implies s2[a].0@ != s2[b].0@ by {
        if a == n {
            assert(s2[b] == s[b]);
            if s[b].0@ == key@ {
                assert(entries_map(s).contains_key(key@));
            }
        } else if b == n {
            assert(s2[a] == s[a]);
            if s[a].0@ == key@ {
                assert(entries_map(s).contains_key(key@));
            }
        }
    }
    assert forall|k: Seq<char>| #[trigger] entries_map(s2).contains_key(k) implies entries_map(s2)[k] == entries_map(s).insert(key@, value)[k] by {
        let j = choose|j: int| 0 <= j < s2.len() && s2[j].0@ == k;
        if k == key@ {
            assert(j == n);
        } else {
            assert(s[j].0@ == k);
            let j0 = choose|j0: int| 0 <= j0 < s.len() && s[j0].0@ == k;
            assert(j0 == j);
        }
    }
    assert forall|k: Seq<char>| entries_map(s).insert(key@, value).contains_key(k) implies #[trigger] entries_map(s2).contains_key(k) by {
        if k != key@ {
            let j = choose|j: int| 0 <= j < s.len() && s[j].0@ == k;
            assert(s2[j].0@ == k);
        }
    }
    assert(entries_map(s2) =~= entries_map(s).insert(key@, value));
}

pub proof fn lemma_map_remove<T>(s: Seq<(String, T)>, i: int, key: Seq<char>)
    requires
        distinct_keys(s),
        0 <= i < s.len(),
        s[i].0@ == key,
    ensures
        distinct_keys(s.remove(i)),
        entries_map(s.remove(i)) == entries_map(s).remove(key),
{
    let s2 = s.remove(i);
    assert forall|a: int, b: int| 0 <= a < s2.len() && 0 <= b < s2.len() && a != b implies s2[a].0@ != s2[b].0@ by {
        let a0 = if a < i { a } else { a + 1 };
        let b0 = if b < i { b } else { b + 1 };
        assert(s2[a] == s[a0]);
        assert(s2[b] == s[b0]);
    }
    assert forall|k: Seq<char>| #[trigger] entries_map(s2).contains_key(k) implies entries_map(s2)[k] == entries_map(s).remove(key)[k] && k != key by {
        let j = choose|j: int| 0 <= j < s2.len() && s2[j].0@ == k;
        let j1 = if j < i { j } else { j + 1 };
        assert(s2[j] == s[j1]);
        assert(j1 != i);
        let j0 = choose|j0: int| 0 <= j0 < s.len() && s[j0].0@ == k;
        assert(j0 == j1);
    }
    assert forall|k: Seq<char>| entries_map(s).remove(key).contains_key(k) implies #[trigger] entries_map(s2).contains_key(k) by {
        let j = choose|j: int| 0 <= j < s.len() && s[j].0@ == k;
        assert(j != i);
        let j2 = if j < i { j } else { j - 1 };
        assert(s2[j2] == s[j]);
    }
    assert(entries_map(s2) =~= entries_map(s).remove(key));
}

impl<T: Copy> Book<T> {
    pub open spec fn wf(&self) -> bool {
        distinct_keys(self.entries@)
    }

    pub open spec fn view(&self) -> Map<Seq<char>, T> {
        entries_map(self.entries@)
    }

    pub fn new() -> (r: Book<T>)
        ensures
            r.wf(),
            r.view() == Map::<Seq<char>, T>::empty(),
            r.entries@.len() == 0,
    {
        let r = Book { entries: Vec::new() };
        assert(r.view() =~= Map::<Seq<char>, T>::empty());
        r
    }

    /// Position of `key`, if present.
    pub fn find(&self, key: &String) -> (r: Option<usize>)
        requires
            self.wf(),
        ensures
            r is None <==> !self.view().contains_key(key@),
            r matches Some(i) ==> i < self.entries@.len() && self.entries@[i as int].0@ == key@,
    {
        let mut i: usize = 0;
        while i < self.entries.len()
            invariant
                i <= self.entries@.len(),
                forall|j: int| 0 <= j < i ==> self.entries@[j].0@ != key@,
            decreases self.entries@.len() - i,
        {
            if self.entries[i].0 == *key {
                return Some(i);
            }
            i = i + 1;
        }
        None
    }

    pub fn get(&self, key: &String) -> (r: Option<T>)
        requires
            self.wf(),
        ensures
            r == (if self.view().contains_key(key@) { Some(self.view()[key@]) } else { None::<T> }),
    {
        match self.find(key) {
            Some(i) => {
                proof {
                    let j = choose|j: int| 0 <= j < self.entries@.len() && self.entries@[j].0@ == key@;
                    assert(j == i);
                }
                Some(self.entries[i].1)
            },
            None => None,
        }
    }

    /// Store `value` under `key`, replacing any previous value.
    pub fn set(&mut self, key: &String, value: T)
        requires
            old(self).wf(),
        ensures
            final(self).wf(),
            final(self).view() == old(self).view().insert(key@, value),
            match old(self).find_spec(key@) {
                Some(i) => final(self).entries@ == old(self).entries@.update(i, (*key, value)),
                None => final(self).entries@ == old(self).entries@.push((*key, value)),
            },
    {
        let ghost s = self.entries@;
        match self.find(key) {
            Some(i) => {
                proof {
                    self.lemma_find_spec(key@, i as int);
                    lemma_map_update(s, i as int, *key, value);
                }
                self.entries.set(i, (key.clone(), value));
            },
            None => {
                proof {
                    lemma_map_push(s, *key, value);
                }
                self.entries.push((key.clone(), value));
            },
        }
    }

    /// Drop the entry of `key`, if any.
    pub fn remove(&mut self, key: &String)
        requires
            old(self).wf(),
        ensures
            final(self).wf(),
            final(self).view() == old(self).view().remove(key@),
            match old(self).find_spec(key@) {
                Some(i) => final(self).entries@ == old(self).entries@.remove(i),
                None => final(self).entries@ == old(self).entries@,
            },
    {
        let ghost s = self.entries@;
        match self.find(key) {
            Some(i) => {
                proof {
                    self.lemma_find_spec(key@, i as int);
                    lemma_map_remove(s, i as int, key@);
                }
                self.entries.remove(i);
            },
            None => {
                assert(entries_map(s) =~= entries_map(s).remove(key@));
            },
        }
    }

    /// The position of `key` among the entries.
    pub open spec fn find_spec(&self, key: Seq<char>) -> Option<int> {
        if self.view().contains_key(key) {
            Some(choose|j: int| 0 <= j < self.entries@.len() && self.entries@[j].0@ == key)
        } else {
            None
        }
    }

    pub proof fn lemma_find_spec(&self, key: Seq<char>, i: int)
        requires
            self.wf(),
            0 <= i < self.entries@.len(),
            self.entries@[i].0@ == key,
        ensures
            self.find_spec(key) == Some(i),
    {
        let j = choose|j: int| 0 <= j < self.entries@.len() && self.entries@[j].0@ == key;
        assert(j == i);
    }
}

impl Book<u128> {
    /// Sum of all amounts in the book.
    pub open spec fn total(&self) -> int {
        seq_total(self.entries@)
    }

    /// The amount held by `key`; zero when absent.
    pub open spec fn amount_of(&self, key: Seq<char>) -> int {
        if self.view().contains_key(key) { self.view()[key] as int } else { 0 }
    }

    /// The amount of `key`, zero when absent.
    pub fn amount(&self, key: &String) -> (r: u128)
        requires
            self.wf(),
        ensures
            r == self.amount_of(key@),
    {
        match self.get(key) {
            Some(v) => v,
            None => 0,
        }
    }

    /// Store an amount; the total changes by the difference.
    pub fn set_amount(&mut self, key: &String, value: u128)
        requires
            old(self).wf(),
        ensures
            final(self).wf(),
            final(self).view() == old(self).view().insert(key@, value),
            final(self).total() == old(self).total() - old(self).amount_of(key@) + value,
    {
        let ghost s = self.entries@;
        proof {
            if let Some(i) = self.find_spec(key@) {
                lemma_total_update(s, i, (*key, value));
            } else {
                assert(s.push((*key, value)).drop_last() =~= s);
            }
        }
        self.set(key, value);
    }

    /// Drop an entry; the total falls by its amount.
    pub fn remove_amount(&mut self, key: &String)
        requires
            old(self).wf(),
        ensures
            final(self).wf(),
            final(self).view() == old(self).view().remove(key@),
            final(self).total() == old(self).total() - old(self).amount_of(key@),
    {
        let ghost s = self.entries@;
        proof {
            if let Some(i) = self.find_spec(key@) {
                lemma_total_remove(s, i);
            }
        }
        self.remove(key);
    }

    pub proof fn lemma_amount_le_total(&self, key: Seq<char>)
        requires
            self.wf(),
        ensures
            0 <= self.amount_of(key) <= self.total(),
    {
        lemma_total_nonneg(self.entries@);
        if self.view().contains_key(key) {
            let j = choose|j: int| 0 <= j < self.entries@.len() && self.entries@[j].0@ == key;
            lemma_entry_le_total(self.entries@, j);
        }
    }
}

/// Whether text `a` sorts before text `b` from position `i` on, comparing
/// characters in turn (the byte order of their UTF-8 encodings); a proper
/// prefix sorts first.
pub open spec fn text_lt_from(a: Seq<char>, b: Seq<char>, i: int) -> bool
    decreases a.len() - i,
{
    if i < 0 || i >= a.len() {
        0 <= i < b.len()
    } else if i >= b.len() {
        false
    } else if a[i] != b[i] {
        a[i] < b[i]
    } else {
        text_lt_from(a, b, i + 1)
    }
}

/// Whether text `a` sorts strictly before text `b`.
pub open spec fn text_lt(a: Seq<char>, b: Seq<char>) -> bool {
    text_lt_from(a, b, 0)
}

proof fn lemma_text_lt_asym(a: Seq<char>, b: Seq<char>, i: int)
    requires
        0 <= i <= a.len(),
        i <= b.len(),
        text_lt_from(a, b, i),
    ensures
        !text_lt_from(b, a, i),
        a != b,
    decreases a.len() - i,
{
    if i < a.len() && i < b.len() && a[i] == b[i] {
        lemma_text_lt_asym(a, b, i + 1);
    }
    if a == b {
        assert(!text_lt_from(a, a, i)) by {
            lemma_text_lt_irrefl(a, i);
        }
    }
}

proof fn lemma_text_lt_irrefl(a: Seq<char>, i: int)
    requires
        0 <= i <= a.len(),
    ensures
        !text_lt_from(a, a, i),
    decreases a.len() - i,
{
    if i < a.len() {
        lemma_text_lt_irrefl(a, i + 1);
    }
}

proof fn lemma_text_lt_total(a: Seq<char>, b: Seq<char>, i: int)
    requires
        0 <= i <= a.len(),
        i <= b.len(),
        forall|j: int| 0 <= j < i ==> a[j] == b[j],
        a != b,
    ensures
        text_lt_from(a, b, i) || text_lt_from(b, a, i),
    decreases a.len() - i,
{
    if i < a.len() && i < b.len() && a[i] == b[i] {
        lemma_text_lt_total(a, b, i + 1);
    } else if i == a.len() && i == b.len() {
        assert(a =~= b);
    }
}

proof fn lemma_text_lt_trans(a: Seq<char>, b: Seq<char>, c: Seq<char>, i: int)
    requires
        0 <= i <= a.len(),
        i <= b.len(),
        i <= c.len(),
        text_lt_from(a, b, i),
        text_lt_from(b, c, i),
    ensures
        text_lt_from(a, c, i),
    decreases a.len() - i,
{
    if i < a.len() && i < b.len() && i < c.len() && a[i] == b[i] && b[i] == c[i] {
        lemma_text_lt_trans(a, b, c, i + 1);
    }
}

/// `a` sorts strictly before `b`, computed.
pub fn text_less(a: &String, b: &String) -> (r: bool)
    ensures
        r == text_lt(a@, b@),
{
    let na = a.as_str().unicode_len();
    let nb = b.as_str().unicode_len();
    let mut i: usize = 0;
    while i < na && i < nb
        invariant
            na == a@.len(),
            nb == b@.len(),
            i <= na,
            i <= nb,
            text_lt(a@, b@) == text_lt_from(a@, b@, i as int),
        decreases na - i,
    {
        let ca = a.as_str().get_char(i);
        let cb = b.as_str().get_char(i);
        if ca != cb {
            return ca < cb;
        }
        i = i + 1;
    }
    i < nb && i == na
}

/// A set of addresses, kept as a vector in ascending order without repeats.
pub struct TextSet {
    pub items: Vec<String>,
}

impl TextSet {
    /// The items ascend strictly.
    pub open spec fn wf(&self) -> bool {
        forall|i: int, j: int| 0 <= i < j < self.items@.len() ==> text_lt(
            #[trigger] self.items@[i]@,
            #[trigger] self.items@[j]@,
        )
    }

    pub open spec fn view(&self) -> Set<Seq<char>> {
        Set::new(|k: Seq<char>| exists|i: int| 0 <= i < self.items@.len() && (#[trigger] self.items@[i])@ == k)
    }

    /// Distinct positions hold distinct texts.
    proof fn lemma_distinct(&self, i: int, j: int)
        requires
            self.wf(),
            0 <= i < self.items@.len(),
            0 <= j < self.items@.len(),
            i != j,
        ensures
            self.items@[i]@ != self.items@[j]@,
    {
        if i < j {
            lemma_text_lt_asym(self.items@[i]@, self.items@[j]@, 0);
        } else {
            lemma_text_lt_asym(self.items@[j]@, self.items@[i]@, 0);
        }
    }

    pub fn new() -> (r: TextSet)
        ensures
            r.wf(),
            r@ == Set::<Seq<char>>::empty(),
    {
        let r = TextSet { items: Vec::new() };
        assert(r@ =~= Set::<Seq<char>>::empty());
        r
    }

    fn position(&self, key: &String) -> (r: Option<usize>)
        requires
            self.wf(),
        ensures
            r is None <==> !self@.contains(key@),
            r matches Some(i) ==> i < self.items@.len() && self.items@[i as int]@ == key@,
    {
        let mut i: usize = 0;
        while i < self.items.len()
            invariant
                i <= self.items@.len(),
                forall|j: int| 0 <= j < i ==> (#[trigger] self.items@[j])@ != key@,
            decreases self.items@.len() - i,
        {
            if self.items[i] == *key {
                return Some(i);
            }
            i = i + 1;
        }
        None
    }

    pub fn contains(&self, key: &String) -> (r: bool)
        requires
            self.wf(),
        ensures
            r == self@.contains(key@),
    {
        self.position(key).is_some()
    }

    pub fn insert(&mut self, key: &String)
        requires
            old(self).wf(),
        ensures
            final(self).wf(),
            final(self)@ == old(self)@.insert(key@),
    {
        if self.position(key).is_some() {
            assert(self@ =~= self@.insert(key@));
            return;
        }
        let ghost s = self.items@;
        // The first item that does not sort before the key.
        let mut p: usize = 0;
        while p < self.items.len() && text_less(&self.items[p], key)
            invariant
                s == self.items@,
                p <= s.len(),
                forall|j: int| 0 <= j < p ==> text_lt(#[trigger] s[j]@, key@),
            decreases s.len() - p,
        {
            p = p + 1;
        }
        proof {
            if p < s.len() {
                assert(s[p as int]@ != key@);
                lemma_text_lt_total(s[p as int]@, key@, 0);
            }
        }
        self.items.insert(p, key.clone());
        let ghost t = self.items@;
        assert forall|a: int, b: int| 0 <= a < b < t.len() implies text_lt(#[trigger] t[a]@, #[trigger] t[b]@) by {
            if b < p {
                assert(t[a] == s[a] && t[b] == s[b]);
            } else if b == p {
                assert(t[a] == s[a]);
            } else if a < p {
                assert(t[a] == s[a] && t[b] == s[b - 1]);
                if b - 1 > p {
                    lemma_text_lt_trans(key@, s[p as int]@, s[b - 1]@, 0);
                }
                lemma_text_lt_trans(s[a]@, key@, s[b - 1]@, 0);
            } else if a == p {
                assert(t[b] == s[b - 1]);
                if b - 1 > p {
                    lemma_text_lt_trans(key@, s[p as int]@, s[b - 1]@, 0);
                }
            } else {
                assert(t[a] == s[a - 1] && t[b] == s[b - 1]);
            }
        }
        assert forall|k: Seq<char>| #[trigger] self@.contains(k) == old(self)@.insert(key@).contains(k) by {
            if old(self)@.contains(k) {
                let j = choose|j: int| 0 <= j < s.len() && (#[trigger] s[j])@ == k;
                if j < p {
                    assert(t[j] == s[j]);
                } else {
                    assert(t[j + 1] == s[j]);
                }
            }
            if k == key@ {
                assert(t[p as int]@ == key@);
            }
            if self@.contains(k) && k != key@ {
                let j = choose|j: int| 0 <= j < t.len() && (#[trigger] t[j])@ == k;
                if j < p {
                    assert(t[j] == s[j]);
                } else {
                    assert(j != p);
                    assert(t[j] == s[j - 1]);
                }
            }
        }
        assert(self@ =~= old(self)@.insert(key@));
    }

    pub fn remove(&mut self, key: &String)
        requires
            old(self).wf(),
        ensures
            final(self).wf(),
            final(self)@ == old(self)@.remove(key@),
    {
        match self.position(key) {
            Some(i) => {
                let ghost s = self.items@;
                proof {
                    assert forall|j: int| 0 <= j < s.len() && j != i implies (#[trigger] s[j])@ != key@ by {
                        old(self).lemma_distinct(j, i as int);
                    }
                }
                self.items.remove(i);
                let ghost t = self.items@;
                assert forall|j: int| 0 <= j < t.len() implies #[trigger] t[j] == s[if j < i { j } else { j + 1 }] by {}
                assert forall|k: Seq<char>| #[trigger] self@.contains(k) == old(self)@.remove(key@).contains(k) by {
                    if old(self)@.contains(k) && k != key@ {
                        let j = choose|j: int| 0 <= j < s.len() && (#[trigger] s[j])@ == k;
                        assert(j != i);
                        let j2 = if j < i { j } else { j - 1 };
                        assert(t[j2] == s[j]);
                    }
                    if self@.contains(k) {
                        let j = choose|j: int| 0 <= j < t.len() && (#[trigger] t[j])@ == k;
                        let j0 = if j < i { j } else { j + 1 };
                        assert(t[j] == s[j0]);
                        assert(j0 != i);
                    }
                }
                assert forall|a: int, b: int| 0 <= a < b < t.len() implies text_lt(#[trigger] t[a]@, #[trigger] t[b]@) by {
                    let a0 = if a < i { a } else { a + 1 };
                    let b0 = if b < i { b } else { b + 1 };
                    assert(t[a] == s[a0] && t[b] == s[b0]);
                }
                assert(self@ =~= old(self)@.remove(key@));
            },
            None => {
                assert(self@ =~= self@.remove(key@));
            },
        }
    }
}

} // verus!
