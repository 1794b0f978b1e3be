//! `StrMap`: a map from strings to values, kept as a list of entries whose
//! keys are pairwise distinct. Its model is a `Map` from the keys' character
//! sequences to the values; the entries also keep the order in which keys
//! were first inserted.

use vstd::prelude::*;

verus! {

/// A map keyed by strings.
#[derive(Debug, Clone, Default)]
pub struct StrMap<V> {
    entries: Vec<(String, V)>,
}

impl<V> StrMap<V> {
    /// The entries, in the order in which their keys were first inserted.
    pub closed spec fn entry_seq(&self) -> Seq<(String, V)> {
        self.entries@
    }

    pub open spec fn spec_len(&self) -> nat {
        self.entry_seq().len()
    }

    pub open spec fn key_at(&self, i: int) -> Seq<char> {
        self.entry_seq()[i].0@
    }

    pub open spec fn value_at(&self, i: int) -> V {
        self.entry_seq()[i].1
    }

    /// The values in entry order.
    pub open spec fn values_seq(&self) -> Seq<V> {
        Seq::new(self.spec_len(), |i: int| self.value_at(i))
    }

    /// No key occurs twice.
    pub open spec fn wf(&self) -> bool {
        forall|i: int, j: int|
            0 <= i < self.spec_len() && 0 <= j < self.spec_len() && i != j ==> #[trigger] self.key_at(i)
                != #[trigger] self.key_at(j)
    }

    pub open spec fn has_key(&self, k: Seq<char>) -> bool {
        exists|i: int| 0 <= i < self.spec_len() && #[trigger] self.key_at(i) == k
    }

    pub open spec fn index_of(&self, k: Seq<char>) -> int {
        choose|i: int| 0 <= i < self.spec_len() && #[trigger] self.key_at(i) == k
    }

    /// The value stored under `k`, read off the entry that holds `k`.
    pub proof fn lemma_view_at(&self, i: int)
        requires
            self.wf(),
            0 <= i < self.spec_len(),
        ensures
            self@.contains_key(self.key_at(i)),
            self@[self.key_at(i)] == self.value_at(i),
            self.index_of(self.key_at(i)) == i,
    {
        assert(self.has_key(self.key_at(i)));
        let j = self.index_of(self.key_at(i));
        assert(self.key_at(j) == self.key_at(i));
    }

    /// A list of distinct keys, each present in the map, is no longer than
    /// the map.
    pub proof fn lemma_distinct_keys_bound(&self, ks: Seq<Seq<char>>)
        requires
            ks.no_duplicates(),
            forall|i: int| 0 <= i < ks.len() ==> self@.contains_key(#[trigger] ks[i]),
        ensures
            ks.len() <= self.spec_len(),
    {
        let keys = Seq::new(self.spec_len(), |i: int| self.key_at(i));
        ks.unique_seq_to_set();
        keys.lemma_cardinality_of_set();
        vstd::seq_lib::seq_to_set_is_finite(keys);
        assert forall|x: Seq<char>| ks.to_set().contains(x) implies keys.to_set().contains(x) by {
            let j = choose|j: int| 0 <= j < ks.len() && ks[j] == x;
            assert(self@.contains_key(ks[j]));
            let i = self.index_of(x);
            assert(keys[i] == x);
        }
        vstd::set_lib::lemma_len_subset(ks.to_set(), keys.to_set());
    }

    /// The map has as many keys as entries.
    pub proof fn lemma_dom_len(&self)
        requires
            self.wf(),
        ensures
            self@.dom().finite(),
            self@.dom().len() == self.spec_len(),
    {
        let keys = Seq::new(self.spec_len(), |i: int| self.key_at(i));
        assert(keys.no_duplicates()) by {
            assert forall|a: int, b: int| 0 <= a < keys.len() && 0 <= b < keys.len() && a != b implies keys[a]
                != keys[b] by {
                assert(self.key_at(a) != self.key_at(b));
            }
        }
        keys.unique_seq_to_set();
        vstd::seq_lib::seq_to_set_is_finite(keys);
        assert forall|x: Seq<char>| keys.to_set().contains(x) <==> self@.dom().contains(x) by {
            if keys.to_set().contains(x) {
                let j = choose|j: int| 0 <= j < keys.len() && keys[j] == x;
                assert(self.key_at(j) == x);
            }
            if self@.dom().contains(x) {
                let i = self.index_of(x);
                assert(keys[i] == x);
            }
        }
        assert(keys.to_set() =~= self@.dom());
    }

    /// An empty map.
    pub fn new() -> (m: Self)
        ensures
            m.wf(),
            m.spec_len() == 0,
            m@ == Map::<Seq<char>, V>::empty(),
    {
        let m = StrMap { entries: Vec::new() };
        assert(m@ =~= Map::<Seq<char>, V>::empty());
        m
    }

    /// The number of keys.
    pub fn len(&self) -> (n: usize)
        ensures
            n == self.spec_len(),
    {
        self.entries.len()
    }

    /// Whether the map has no keys.
    pub fn is_empty(&self) -> (b: bool)
        ensures
            b == (self.spec_len() == 0),
    {
        self.entries.len() == 0
    }

    /// The position of the entry that holds `key`, if any.
    pub fn find(&self, key: &str) -> (r: Option<usize>)
        ensures
            match r {
                Some(i) => i < self.spec_len() && self.key_at(i as int) == key@,
                None => !self.has_key(key@),
            },
    {
        let k = key.to_owned();
        let mut i: usize = 0;
        while i < self.entries.len()
            invariant
                i <= self.spec_len(),
                k@ == key@,
                forall|j: int| 0 <= j < i ==> self.key_at(j) != key@,
            decreases self.spec_len() - i,
        {
            if self.entries[i].0 == k {
                return Some(i);
            }
            i = i + 1;
        }
        None
    }

    /// Whether `key` is present.
    pub fn contains_key(&self, key: &str) -> (b: bool)
        ensures
            b == self@.contains_key(key@),
    {
        self.find(key).is_some()
    }

    /// The value stored under `key`, if any.
    pub fn get(&self, key: &str) -> (r: Option<&V>)
        requires
            self.wf(),
        ensures
            match r {
                Some(v) => self@.contains_key(key@) && *v == self@[key@],
                None => !self@.contains_key(key@),
            },
    {
        match self.find(key) {
            Some(i) => {
                proof {
                    self.lemma_view_at(i as int);
                }
                Some(&self.entries[i].1)
            },
            None => None,
        }
    }

    /// The key of the entry at position `i`.
    pub fn key_at_index(&self, i: usize) -> (k: &String)
        requires
            i < self.spec_len(),
        ensures
            k@ == self.key_at(i as int),
    {
        &self.entries[i].0
    }

    /// The value of the entry at position `i`.
    pub fn value_at_index(&self, i: usize) -> (v: &V)
        requires
            i < self.spec_len(),
        ensures
            *v == self.value_at(i as int),
    {
        &self.entries[i].1
    }

    /// References to all values, in entry order.
    pub fn values(&self) -> (vs: Vec<&V>)
        ensures
            vs@.len() == self.spec_len(),
            forall|i: int| 0 <= i < self.spec_len() ==> *vs@[i] == self.value_at(i),
    {
        let mut vs: Vec<&V> = Vec::new();
        let mut i: usize = 0;
        while i < self.entries.len()
            invariant
                i <= self.spec_len(),
                vs@.len() == i,
                forall|j: int| 0 <= j < i ==> *vs@[j] == self.value_at(j),
            decreases self.spec_len() - i,
        {
            vs.push(&self.entries[i].1);
            i = i + 1;
        }
        vs
    }

    /// Stores `value` under `key`, giving back the value that was there.
    /// A key already present keeps its position; a new key goes last.
    pub fn insert(&mut self, key: String, value: V) -> (prev: Option<V>)
        requires
            old(self).wf(),
        ensures
            final(self).wf(),
            final(self)@ == old(self)@.insert(key@, value),
            prev == (if old(self)@.contains_key(key@) {
                Some(old(self)@[key@])
            } else {
                None
            }),
            old(self)@.contains_key(key@) ==> final(self).entry_seq() == old(self).entry_seq().update(
                old(self).index_of(key@),
                (old(self).entry_seq()[old(self).index_of(key@)].0, value),
            ),
            !old(self)@.contains_key(key@) ==> final(self).entry_seq() == old(self).entry_seq().push(
                (key, value),
            ),
    {
        let ghost pre = *self;
        match self.find(key.as_str()) {
            Some(i) => {
                proof {
                    pre.lemma_view_at(i as int);
                }
                let mut v = value;
                std::mem::swap(&mut self.entries[i].1, &mut v);
                proof {
                    assert(self.entry_seq() =~= pre.entry_seq().update(
                        i as int,
                        (pre.entry_seq()[i as int].0, value),
                    ));
                    self.lemma_update_model(&pre, i as int, value);
                }
                Some(v)
            },
            None => {
                self.entries.push((key, value));
                proof {
                    assert(self.entry_seq() =~= pre.entry_seq().push((key, value)));
                    self.lemma_push_model(&pre, key@, value);
                }
                None
            },
        }
    }

    /// Removes `key`, giving back its value. The other entries keep their
    /// order.
    pub fn remove(&mut self, key: &str) -> (prev: Option<V>)
        requires
            old(self).wf(),
        ensures
            final(self).wf(),
            final(self)@ == old(self)@.remove(key@),
            prev == (if old(self)@.contains_key(key@) {
                Some(old(self)@[key@])
            } else {
                None
            }),
            old(self)@.contains_key(key@) ==> final(self).entry_seq() == old(self).entry_seq().remove(
                old(self).index_of(key@),
            ),
            !old(self)@.contains_key(key@) ==> final(self).entry_seq() == old(self).entry_seq(),
    {
        let ghost pre = *self;
        match self.find(key) {
            Some(i) => {
                proof {
                    pre.lemma_view_at(i as int);
                }
                let (_, v) = self.entries.remove(i);
                proof {
                    self.lemma_remove_model(&pre, i as int);
                }
                Some(v)
            },
            None => {
                proof {
                    assert(self@ =~= pre@.remove(key@));
                }
                None
            },
        }
    }

    proof fn lemma_remove_model(&self, pre: &Self, p: int)
        requires
            pre.wf(),
            0 <= p < pre.spec_len(),
            self.entry_seq() == pre.entry_seq().remove(p),
        ensures
            self.wf(),
            self@ == pre@.remove(pre.key_at(p)),
    {
        let k = pre.key_at(p);
        let n = self.spec_len() as int;
        assert forall|j: int| 0 <= j < n implies #[trigger] self.key_at(j) == pre.key_at(
            if j < p { j } else { j + 1 },
        ) && self.value_at(j) == pre.value_at(if j < p { j } else { j + 1 }) by {}
        assert forall|a: int, b: int|
            0 <= a < n && 0 <= b < n && a != b implies #[trigger] self.key_at(a) != #[trigger] self.key_at(
            b,
        ) by {
            let pa = if a < p { a } else { a + 1 };
            let pb = if b < p { b } else { b + 1 };
            assert(pre.key_at(pa) != pre.key_at(pb));
        }
        assert forall|q: Seq<char>| #[trigger] self@.contains_key(q) <==> pre@.remove(k).contains_key(q) by {
            if pre.has_key(q) && q != k {
                let j = pre.index_of(q);
                if j < p {
                    assert(self.key_at(j) == q);
                } else {
                    assert(j != p);
                    assert(self.key_at(j - 1) == q);
                }
            }
            if self.has_key(q) {
                let j = self.index_of(q);
                let pj = if j < p { j } else { j + 1 };
                assert(pre.key_at(pj) == q);
                assert(pj != p);
                assert(pre.key_at(pj) != pre.key_at(p));
            }
        }
        assert forall|q: Seq<char>| #[trigger] self@.contains_key(q) implies self@[q] == pre@.remove(k)[q] by {
            let j = self.index_of(q);
            self.lemma_view_at(j);
            let pj = if j < p { j } else { j + 1 };
            pre.lemma_view_at(pj);
        }
        assert(self@ =~= pre@.remove(k));
    }

    /// Removes every key.
    pub fn clear(&mut self)
        ensures
            final(self).wf(),
            final(self).spec_len() == 0,
            final(self)@ == Map::<Seq<char>, V>::empty(),
    {
        self.entries.clear();
        assert(self@ =~= Map::<Seq<char>, V>::empty());
    }

    /// A mutable reference to the value of the entry at position `i`; keys
    /// cannot be changed through it.
    pub fn value_mut_at_index(&mut self, i: usize) -> (v: &mut V)
        requires
            i < old(self).spec_len(),
        ensures
            *v == old(self).value_at(i as int),
            final(self).entry_seq() == old(self).entry_seq().update(
                i as int,
                (old(self).entry_seq()[i as int].0, *final(v)),
            ),
    {
        &mut self.entries[i].1
    }

    /// A mutable reference to the value stored under `key`, if any.
    pub fn get_mut(&mut self, key: &str) -> (r: Option<&mut V>)
        requires
            old(self).wf(),
        ensures
            match r {
                Some(v) => {
                    &&& old(self)@.contains_key(key@)
                    &&& *v == old(self)@[key@]
                    &&& final(self).wf()
                    &&& final(self)@ == old(self)@.insert(key@, *final(v))
                    &&& final(self).entry_seq() == old(self).entry_seq().update(
                        old(self).index_of(key@),
                        (old(self).entry_seq()[old(self).index_of(key@)].0, *final(v)),
                    )
                },
                None => !old(self)@.contains_key(key@) && *final(self) == *old(self),
            },
    {
        match self.find(key) {
            Some(i) => {
                let ghost pre = *self;
                proof {
                    pre.lemma_view_at(i as int);
                }
                proof {
                    Self::lemma_update_all(&pre, i as int);
                }
                let v = self.value_mut_at_index(i);
                Some(v)
            },
            None => None,
        }
    }

    proof fn lemma_update_all(pre: &Self, p: int)
        requires
            pre.wf(),
            0 <= p < pre.spec_len(),
        ensures
            forall|s: Self, x: V|
                #![trigger s.entry_seq(), pre.entry_seq().update(p, (pre.entry_seq()[p].0, x))]
                s.entry_seq() == pre.entry_seq().update(p, (pre.entry_seq()[p].0, x)) ==> s.wf()
                    && s@ == pre@.insert(pre.key_at(p), x),
    {
        assert forall|s: Self, x: V|
            #![trigger s.entry_seq(), pre.entry_seq().update(p, (pre.entry_seq()[p].0, x))]
            s.entry_seq() == pre.entry_seq().update(p, (pre.entry_seq()[p].0, x)) implies s.wf()
            && s@ == pre@.insert(pre.key_at(p), x) by {
            s.lemma_update_model(pre, p, x);
        }
    }

    proof fn lemma_update_model(&self, pre: &Self, p: int, v: V)
        requires
            pre.wf(),
            0 <= p < pre.spec_len(),
            self.spec_len() == pre.spec_len(),
            forall|j: int| 0 <= j < self.spec_len() ==> #[trigger] self.key_at(j) == pre.key_at(j),
            forall|j: int|
                0 <= j < self.spec_len() && j != p ==> #[trigger] self.value_at(j) == pre.value_at(j),
            self.value_at(p) == v,
        ensures
            self.wf(),
            self@ == pre@.insert(pre.key_at(p), v),
    {
        let k = pre.key_at(p);
        assert forall|a: int, b: int|
            0 <= a < self.spec_len() && 0 <= b < self.spec_len() && a != b implies #[trigger] self.key_at(a)
            != #[trigger] self.key_at(b) by {
            assert(pre.key_at(a) != pre.key_at(b));
        }
        assert forall|q: Seq<char>| #[trigger] self@.contains_key(q) <==> pre@.insert(k, v).contains_key(q) by {
            if pre.has_key(q) {
                let j = pre.index_of(q);
                assert(self.key_at(j) == q);
            }
            if self.has_key(q) {
                let j = self.index_of(q);
                assert(pre.key_at(j) == q);
            }
            if q == k {
                assert(self.key_at(p) == q);
            }
        }
        assert forall|q: Seq<char>| #[trigger] self@.contains_key(q) implies self@[q] == pre@.insert(k, v)[q] by {
            let j = self.index_of(q);
            self.lemma_view_at(j);
            pre.lemma_view_at(j);
        }
        assert(self@ =~= pre@.insert(k, v));
    }

    proof fn lemma_push_model(&self, pre: &Self, k: Seq<char>, v: V)
        requires
            pre.wf(),
            !pre.has_key(k),
            self.spec_len() == pre.spec_len() + 1,
            forall|j: int| 0 <= j < pre.spec_len() ==> #[trigger] self.key_at(j) == pre.key_at(j),
            forall|j: int| 0 <= j < pre.spec_len() ==> #[trigger] self.value_at(j) == pre.value_at(j),
            self.key_at(pre.spec_len() as int) == k,
            self.value_at(pre.spec_len() as int) == v,
        ensures
            self.wf(),
            self@ == pre@.insert(k, v),
    {
        let n = pre.spec_len() as int;
        assert forall|a: int, b: int|
            0 <= a < self.spec_len() && 0 <= b < self.spec_len() && a != b implies #[trigger] self.key_at(a)
            != #[trigger] self.key_at(b) by {
            if a < n && b < n {
                assert(pre.key_at(a) != pre.key_at(b));
            } else if a < n {
                assert(pre.key_at(a) == self.key_at(a));
            } else if b < n {
                assert(pre.key_at(b) == self.key_at(b));
            }
        }
        assert forall|q: Seq<char>| #[trigger] self@.contains_key(q) <==> pre@.insert(k, v).contains_key(q) by {
            if pre.has_key(q) {
                let j = pre.index_of(q);
                assert(self.key_at(j) == q);
            }
            if self.has_key(q) {
                let j = self.index_of(q);
                if j < n {
                    assert(pre.key_at(j) == q);
                }
            }
            if q == k {
                assert(self.key_at(n) == q);
            }
        }
        assert forall|q: Seq<char>| #[trigger] self@.contains_key(q) implies self@[q] == pre@.insert(k, v)[q] by {
            let j = self.index_of(q);
            self.lemma_view_at(j);
            if j < n {
                pre.lemma_view_at(j);
            }
        }
        assert(self@ =~= pre@.insert(k, v));
    }
}

impl StrMap<String> {
    /// A copy of this map, entry for entry.
    pub fn duplicate(&self) -> (r: Self)
        ensures
            r.entry_seq() == self.entry_seq(),
    {
        let mut entries: Vec<(String, String)> = Vec::new();
        let mut i: usize = 0;
        while i < self.entries.len()
            invariant
                i <= self.entries@.len(),
                entries@ == self.entries@.take(i as int),
            decreases self.entries@.len() - i,
        {
            let k = self.entries[i].0.clone();
            let v = self.entries[i].1.clone();
            entries.push((k, v));
            assert(self.entries@.take(i + 1) =~= self.entries@.take(i as int).push(self.entries@[i as int]));
            i = i + 1;
        }
        assert(self.entries@.take(self.entries@.len() as int) =~= self.entries@);
        StrMap { entries }
    }
}

impl<V> View for StrMap<V> {
    type V = Map<Seq<char>, V>;

    open spec fn view(&self) -> Map<Seq<char>, V> {
        Map::new(|k: Seq<char>| self.has_key(k), |k: Seq<char>| self.value_at(self.index_of(k)))
    }
}

} // verus!
