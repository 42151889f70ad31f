//! A finite map kept as a list of entries whose keys are pairwise distinct. It holds
//! the contents of a storage map of a module.

use vstd::prelude::*;

verus! {

/// A key of a storage map: a value that can be copied and compared.
pub trait StoreKey: Copy {
    fn same_key(&self, other: &Self) -> (b: bool)
        ensures
            b == (*self == *other),
    ;
}

/// Whether some entry of `s` has the key `k`.
pub open spec fn has_key<K, V>(s: Seq<(K, V)>, k: K) -> bool {
    exists|i: int| 0 <= i < s.len() && #[trigger] s[i].0 == k
}

/// An index of an entry of `s` with the key `k`.
pub open spec fn index_of_key<K, V>(s: Seq<(K, V)>, k: K) -> int {
    choose|i: int| 0 <= i < s.len() && #[trigger] s[i].0 == k
}

/// No two entries of `s` share a key.
pub open spec fn distinct_keys<K, V>(s: Seq<(K, V)>) -> bool {
    forall|i: int, j: int| 0 <= i < s.len() && 0 <= j < s.len() && i != j ==> #[trigger] s[i].0 != #[trigger] s[j].0
}

/// The map that a list of entries stands for.
pub open spec fn entries_map<K, V>(s: Seq<(K, V)>) -> Map<K, V> {
    Map::new(|k: K| has_key(s, k), |k: K| s[index_of_key(s, k)].1)
}

/// In a list with distinct keys, each entry is what the map holds under its key.
pub proof fn lemma_entries_map_at<K, V>(s: Seq<(K, V)>, i: int)
    requires
        distinct_keys(s),
        0 <= i < s.len(),
    ensures
        entries_map(s).contains_key(s[i].0),
        entries_map(s)[s[i].0] == s[i].1,
{
    assert(has_key(s, s[i].0));
    let j = index_of_key(s, s[i].0);
    assert(0 <= j < s.len() && s[j].0 == s[i].0);
}

/// A key that no entry has is absent from the map.
pub proof fn lemma_entries_map_absent<K, V>(s: Seq<(K, V)>, k: K)
    requires
        forall|i: int| 0 <= i < s.len() ==> s[i].0 != k,
    ensures
        !entries_map(s).contains_key(k),
{
}

/// The contents of a storage map.
#[verifier::reject_recursive_types(K)]
pub struct KeyedMap<K, V> {
    entries: Vec<(K, V)>,
}

impl<K, V> View for KeyedMap<K, V> {
    type V = Map<K, V>;

    closed spec fn view(&self) -> Map<K, V> {
        entries_map(self.entries@)
    }
}

impl<K: StoreKey, V: Copy> KeyedMap<K, V> {
    /// The list of entries has distinct keys.
    pub closed spec fn wf(&self) -> bool {
        distinct_keys(self.entries@)
    }

    /// The empty map.
    pub fn new() -> (m: Self)
        ensures
            m.wf(),
            m@ == Map::<K, V>::empty(),
    {
        let m = KeyedMap { entries: Vec::new() };
        assert(m@ =~= Map::<K, V>::empty());
        m
    }

    /// The index of the entry with key `k`, if there is one.
    fn find(&self, k: &K) -> (r: Option<usize>)
        requires
            self.wf(),
        ensures
            match r {
                Some(i) => i < self.entries@.len() && self.entries@[i as int].0 == *k,
                None => forall|i: int| 0 <= i < self.entries@.len() ==> self.entries@[i].0 != *k,
            },
    {
        let mut i: usize = 0;
        while i < self.entries.len()
            invariant
                i <= self.entries@.len(),
                forall|j: int| 0 <= j < i ==> self.entries@[j].0 != *k,
            decreases self.entries@.len() - i,
        {
            if self.entries[i].0.same_key(k) {
                return Some(i);
            }
            i = i + 1;
        }
        None
    }

    /// Whether the map holds the key `k`.
    pub fn contains_key(&self, k: &K) -> (b: bool)
        requires
            self.wf(),
        ensures
            b == self@.contains_key(*k),
    {
        match self.find(k) {
            Some(i) => {
                proof {
                    lemma_entries_map_at(self.entries@, i as int);
                }
                true
            },
            None => {
                proof {
                    lemma_entries_map_absent(self.entries@, *k);
                }
                false
            },
        }
    }

    /// The value under the key `k`, if there is one.
    pub fn get(&self, k: &K) -> (r: Option<V>)
        requires
            self.wf(),
        ensures
            r == (if self@.contains_key(*k) {
                Some(self@[*k])
            } else {
                None::<V>
            }),
    {
        match self.find(k) {
            Some(i) => {
                proof {
                    lemma_entries_map_at(self.entries@, i as int);
                }
                Some(self.entries[i].1)
            },
            None => {
                proof {
                    lemma_entries_map_absent(self.entries@, *k);
                }
                None
            },
        }
    }

    /// Puts `v` under the key `k`, in place of any value that was there.
    pub fn insert(&mut self, k: K, v: V)
        requires
            old(self).wf(),
        ensures
            final(self).wf(),
            final(self)@ == old(self)@.insert(k, v),
    {
        let ghost s0 = self.entries@;
        match self.find(&k) {
            Some(i) => {
                self.entries.set(i, (k, v));
                proof {
                    let s1 = self.entries@;
                    assert(s1 == s0.update(i as int, (k, v)));
                    assert(distinct_keys(s1)) by {
                        assert forall|a: int, b: int|
                            0 <= a < s1.len() && 0 <= b < s1.len() && a != b implies #[trigger] s1[a].0
                            != #[trigger] s1[b].0 by {
                            assert(s0[a].0 != s0[b].0);
                        }
                    }
                    assert forall|key: K| #[trigger]
                        entries_map(s1).contains_key(key) == map_with_insert_contains(s0, k, v, key) by {
                        if has_key(s0, key) {
                            let j = index_of_key(s0, key);
                            assert(s1[j].0 == key);
                        }
                        if has_key(s1, key) {
                            let j = index_of_key(s1, key);
                            assert(s0[j].0 == key);
                        }
                    }
                    assert forall|key: K| #[trigger] entries_map(s1).contains_key(key) implies entries_map(
                        s1,
                    )[key] == entries_map(s0).insert(k, v)[key] by {
                        let j = index_of_key(s1, key);
                        lemma_entries_map_at(s1, j);
                        if key != k {
                            assert(s0[j].0 == key);
                            lemma_entries_map_at(s0, j);
                        }
                    }
                    assert(entries_map(s1) =~= entries_map(s0).insert(k, v));
                }
            },
            None => {
                self.entries.push((k, v));
                proof {
                    let s1 = self.entries@;
                    assert(s1 == s0.push((k, v)));
                    assert(distinct_keys(s1)) by {
                        assert forall|a: int, b: int|
                            0 <= a < s1.len() && 0 <= b < s1.len() && a != b implies #[trigger] s1[a].0
                            != #[trigger] s1[b].0 by {
                            if a < s0.len() && b < s0.len() {
                                assert(s0[a].0 != s0[b].0);
                            } else if a < s0.len() {
                                assert(s0[a].0 != k);
                            } else {
                                assert(s0[b].0 != k);
                            }
                        }
                    }
                    assert forall|key: K| #[trigger]
                        entries_map(s1).contains_key(key) == map_with_insert_contains(s0, k, v, key) by {
                        if has_key(s0, key) {
                            let j = index_of_key(s0, key);
                            assert(s1[j].0 == key);
                        }
                        if key == k {
                            assert(s1[s0.len() as int].0 == key);
                        }
                        if has_key(s1, key) {
                            let j = index_of_key(s1, key);
                            if j < s0.len() {
                                assert(s0[j].0 == key);
                            }
                        }
                    }
                    assert forall|key: K| #[trigger] entries_map(s1).contains_key(key) implies entries_map(
                        s1,
                    )[key] == entries_map(s0).insert(k, v)[key] by {
                        let j = index_of_key(s1, key);
                        lemma_entries_map_at(s1, j);
                        if key != k {
                            assert(j < s0.len());
                            assert(s0[j].0 == key);
                            lemma_entries_map_at(s0, j);
                        }
                    }
                    assert(entries_map(s1) =~= entries_map(s0).insert(k, v));
                }
            },
        }
    }

    /// Takes the key `k` out of the map, handing back the value that was under it.
    pub fn remove(&mut self, k: &K) -> (r: Option<V>)
        requires
            old(self).wf(),
        ensures
            final(self).wf(),
            final(self)@ == old(self)@.remove(*k),
            r == (if old(self)@.contains_key(*k) {
                Some(old(self)@[*k])
            } else {
                None::<V>
            }),
    {
        let ghost s0 = self.entries@;
        match self.find(k) {
            Some(i) => {
                proof {
                    lemma_entries_map_at(s0, i as int);
                }
                let (_, v) = self.entries.remove(i);
                proof {
                    let s1 = self.entries@;
                    assert(s1 == s0.remove(i as int));
                    assert(distinct_keys(s1)) by {
                        assert forall|a: int, b: int|
                            0 <= a < s1.len() && 0 <= b < s1.len() && a != b implies #[trigger] s1[a].0
                            != #[trigger] s1[b].0 by {
                            let a0 = if a < i { a } else { a + 1 };
                            let b0 = if b < i { b } else { b + 1 };
                            assert(s1[a] == s0[a0]);
                            assert(s1[b] == s0[b0]);
                            assert(s0[a0].0 != s0[b0].0);
                        }
                    }
                    assert forall|key: K| #[trigger]
                        entries_map(s1).contains_key(key) == entries_map(s0).remove(*k).contains_key(key) by {
                        if has_key(s1, key) {
                            let j = index_of_key(s1, key);
                            let j0 = if j < i { j } else { j + 1 };
                            assert(s0[j0] == s1[j]);
                            assert(s0[j0].0 != s0[i as int].0);
                            lemma_entries_map_at(s0, j0);
                        }
                        if key != *k && has_key(s0, key) {
                            let j0 = index_of_key(s0, key);
                            assert(j0 != i);
                            let j = if j0 < i { j0 } else { j0 - 1 };
                            assert(s1[j] == s0[j0]);
                        }
                    }
                    assert forall|key: K| #[trigger] entries_map(s1).contains_key(key) implies entries_map(
                        s1,
                    )[key] == entries_map(s0)[key] by {
                        let j = index_of_key(s1, key);
                        lemma_entries_map_at(s1, j);
                        let j0 = if j < i { j } else { j + 1 };
                        assert(s0[j0] == s1[j]);
                        lemma_entries_map_at(s0, j0);
                    }
                    assert(entries_map(s1) =~= entries_map(s0).remove(*k));
                }
                Some(v)
            },
            None => {
                proof {
                    lemma_entries_map_absent(s0, *k);
                    assert(entries_map(s0) =~= entries_map(s0).remove(*k));
                }
                None
            },
        }
    }

    /// The keys of the map, each once, in the order the map keeps them.
    pub fn keys(&self) -> (r: Vec<K>)
        requires
            self.wf(),
        ensures
            r@.no_duplicates(),
            forall|key: K| r@.contains(key) <==> self@.contains_key(key),
    {
        let mut r: Vec<K> = Vec::new();
        let mut i: usize = 0;
        while i < self.entries.len()
            invariant
                self.wf(),
                i <= self.entries@.len(),
                r@.len() == i,
                forall|j: int| 0 <= j < i ==> #[trigger] r@[j] == self.entries@[j].0,
            decreases self.entries@.len() - i,
        {
            r.push(self.entries[i].0);
            i = i + 1;
        }
        proof {
            let s = self.entries@;
            assert forall|a: int, b: int| 0 <= a < r@.len() && 0 <= b < r@.len() && a != b implies r@[a]
                != r@[b] by {
                assert(s[a].0 != s[b].0);
            }
            assert forall|key: K| r@.contains(key) <==> self@.contains_key(key) by {
                if r@.contains(key) {
                    let j = choose|j: int| 0 <= j < r@.len() && r@[j] == key;
                    lemma_entries_map_at(s, j);
                }
                if self@.contains_key(key) {
                    let j = index_of_key(s, key);
                    assert(r@[j] == key);
                }
            }
        }
        r
    }
}

/// Whether `key` is in `s0` with `k` put in.
pub open spec fn map_with_insert_contains<K, V>(s0: Seq<(K, V)>, k: K, v: V, key: K) -> bool {
    entries_map(s0).insert(k, v).contains_key(key)
}

} // verus!
