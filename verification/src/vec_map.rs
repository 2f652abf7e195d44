//! A finite map kept as a vector of key/value entries with distinct keys.
//!
//! The storage items of the header chain are maps (headers by hash, hashes
//! by block number). `VecMap` gives them an executable form whose abstract
//! value is a `Map`, so that the storage contracts can be stated over maps.
use vstd::prelude::*;

verus! {

/// Keys that can be compared in executable code, with the comparison tied
/// to mathematical equality.
pub trait KeyEq: Sized + Copy {
    fn key_eq(&self, other: &Self) -> (same: bool)
        ensures
            same == (*self == *other),
    ;
}

impl KeyEq for u64 {
    fn key_eq(&self, other: &Self) -> (same: bool) {
        *self == *other
    }
}

impl KeyEq for [u8; 32] {
    fn key_eq(&self, other: &Self) -> (same: bool) {
        let mut i: usize = 0;
        while i < 32
            invariant
                i <= 32,
                forall|j: int| 0 <= j < i ==> self[j] == other[j],
            decreases 32 - i,
        {
            if self[i] != other[i] {
                return false;
            }
            i = i + 1;
        }
        assert(*self =~= *other);
        true
    }
}

/// The entries of a sequence have pairwise distinct keys.
pub open spec fn keys_distinct<K, V>(s: Seq<(K, V)>) -> bool {
    forall|i: int, j: int| 0 <= i < s.len() && 0 <= j < s.len() && i != j ==> s[i].0 != s[j].0
}

/// `k` is the key of some entry of `s`.
pub open spec fn has_key<K, V>(s: Seq<(K, V)>, k: K) -> bool {
    exists|i: int| 0 <= i < s.len() && #[trigger] s[i].0 == k
}

/// The map that a sequence of entries with distinct keys stands for.
pub open spec fn entries_map<K, V>(s: Seq<(K, V)>) -> Map<K, V> {
    Map::new(
        |k: K| has_key(s, k),
        |k: K| s[choose|i: int| 0 <= i < s.len() && #[trigger] s[i].0 == k].1,
    )
}

/// With distinct keys, the map holds each entry's value under its key.
pub proof fn lemma_entries_map_at<K, V>(s: Seq<(K, V)>, i: int)
    requires
        keys_distinct(s),
        0 <= i < s.len(),
    ensures
        entries_map(s).dom().contains(s[i].0),
        entries_map(s)[s[i].0] == s[i].1,
{
    let k = s[i].0;
    assert(has_key(s, k));
    let j = choose|j: int| 0 <= j < s.len() && #[trigger] s[j].0 == k;
    assert(j == i);
}

/// Appending an entry with a fresh key inserts it into the map.
pub proof fn lemma_entries_map_push<K, V>(s: Seq<(K, V)>, k: K, v: V)
    requires
        keys_distinct(s),
        !has_key(s, k),
    ensures
        keys_distinct(s.push((k, v))),
        entries_map(s.push((k, v))) == entries_map(s).insert(k, v),
{
    let t = s.push((k, v));
    assert(keys_distinct(t)) by {
        assert forall|i: int, j: int|
            0 <= i < t.len() && 0 <= j < t.len() && i != j implies t[i].0 != t[j].0 by {
            if i == s.len() {
                assert(s[j].0 == t[j].0);
            } else if j == s.len() {
                assert(s[i].0 == t[i].0);
            } else {
                assert(s[i].0 == t[i].0 && s[j].0 == t[j].0);
            }
        }
    }
    let m = entries_map(s).insert(k, v);
    assert forall|key: K| #[trigger] entries_map(t).dom().contains(key) <==> m.dom().contains(key) by {
        if has_key(t, key) {
            let i = choose|i: int| 0 <= i < t.len() && #[trigger] t[i].0 == key;
            if i < s.len() {
                assert(s[i].0 == key);
            }
        }
        if has_key(s, key) {
            let i = choose|i: int| 0 <= i < s.len() && #[trigger] s[i].0 == key;
            assert(t[i].0 == key);
        }
        if key == k {
            assert(t[s.len() as int].0 == key);
        }
    }
    assert forall|key: K| #[trigger] entries_map(t).dom().contains(key) implies entries_map(t)[key]
        == m[key] by {
        let i = choose|i: int| 0 <= i < t.len() && #[trigger] t[i].0 == key;
        lemma_entries_map_at(t, i);
        if i < s.len() {
            assert(t[i] == s[i]);
            lemma_entries_map_at(s, i);
        }
    }
    assert(entries_map(t) =~= m);
}

/// Removing the entry at `i` removes its key from the map.
pub proof fn lemma_entries_map_remove<K, V>(s: Seq<(K, V)>, i: int)
    requires
        keys_distinct(s),
        0 <= i < s.len(),
    ensures
        keys_distinct(s.remove(i)),
        entries_map(s.remove(i)) == entries_map(s).remove(s[i].0),
{
    let t = s.remove(i);
    let k = s[i].0;
    assert forall|a: int| 0 <= a < t.len() implies #[trigger] t[a] == s[if a < i {
        a
    } else {
        a + 1
    }] by {}
    assert(keys_distinct(t)) by {
        assert forall|a: int, b: int|
            0 <= a < t.len() && 0 <= b < t.len() && a != b implies t[a].0 != t[b].0 by {
            let a1 = if a < i {
                a
            } else {
                a + 1
            };
            let b1 = if b < i {
                b
            } else {
                b + 1
            };
            assert(t[a] == s[a1]);
            assert(t[b] == s[b1]);
        }
    }
    let m = entries_map(s).remove(k);
    assert forall|key: K| #[trigger] entries_map(t).dom().contains(key) <==> m.dom().contains(key) by {
        if has_key(t, key) {
            let a = choose|a: int| 0 <= a < t.len() && #[trigger] t[a].0 == key;
            let a1 = if a < i {
                a
            } else {
                a + 1
            };
            assert(t[a] == s[a1]);
            assert(s[a1].0 == key);
        }
        if has_key(s, key) && key != k {
            let a = choose|a: int| 0 <= a < s.len() && #[trigger] s[a].0 == key;
            assert(a != i);
            if a < i {
                assert(t[a] == s[a]);
                assert(t[a].0 == key);
            } else {
                assert(t[a - 1] == s[a]);
                assert(t[a - 1].0 == key);
            }
        }
    }
    assert forall|key: K| #[trigger] entries_map(t).dom().contains(key) implies entries_map(t)[key]
        == m[key] by {
        let a = choose|a: int| 0 <= a < t.len() && #[trigger] t[a].0 == key;
        lemma_entries_map_at(t, a);
        let a1 = if a < i {
            a
        } else {
            a + 1
        };
        assert(t[a] == s[a1]);
        lemma_entries_map_at(s, a1);
    }
    assert(entries_map(t) =~= m);
}

/// A finite map stored as a vector of entries whose keys are distinct.
pub struct VecMap<K, V> {
    entries: Vec<(K, V)>,
}

impl<K: KeyEq, V> View for VecMap<K, V> {
    type V = Map<K, V>;

    /// The map that this value stands for.
    closed spec fn view(&self) -> Map<K, V> {
        entries_map(self.entries@)
    }
}

impl<K: KeyEq, V> VecMap<K, V> {
    /// The keys of the entries are distinct.
    pub closed spec fn wf(&self) -> bool {
        keys_distinct(self.entries@)
    }

    /// The empty map.
    pub fn new() -> (m: Self)
        ensures
            m.wf(),
            m@ == Map::<K, V>::empty(),
    {
        let m = VecMap { entries: Vec::new() };
        assert(m@ =~= Map::<K, V>::empty());
        m
    }

    /// Position of the entry for `k`, if there is one.
    fn find(&self, k: &K) -> (pos: Option<usize>)
        requires
            self.wf(),
        ensures
            match pos {
                Some(i) => i < self.entries@.len() && self.entries@[i as int].0 == *k,
                None => !has_key(self.entries@, *k),
            },
    {
        let mut i: usize = 0;
        while i < self.entries.len()
            invariant
                i <= self.entries@.len(),
                forall|j: int| 0 <= j < i ==> self.entries@[j].0 != *k,
            decreases self.entries@.len() - i,
        {
            if self.entries[i].0.key_eq(k) {
                return Some(i);
            }
            i = i + 1;
        }
        None
    }

    /// Whether `k` has a value.
    pub fn contains_key(&self, k: &K) -> (found: bool)
        requires
            self.wf(),
        ensures
            found == self@.dom().contains(*k),
    {
        self.find(k).is_some()
    }

    /// The value stored under `k`, if any.
    pub fn get(&self, k: &K) -> (v: Option<&V>)
        requires
            self.wf(),
        ensures
            v == (if self@.dom().contains(*k) {
                Some(&self@[*k])
            } else {
                None::<&V>
            }),
    {
        match self.find(k) {
            Some(i) => {
                proof {
                    lemma_entries_map_at(self.entries@, i as int);
                }
                Some(&self.entries[i].1)
            },
            None => None,
        }
    }

    /// Stores `v` under `k`, replacing the value that was there.
    pub fn insert(&mut self, k: K, v: V)
        requires
            old(self).wf(),
        ensures
            final(self).wf(),
            final(self)@ == old(self)@.insert(k, v),
    {
        match self.find(&k) {
            Some(i) => {
                proof {
                    lemma_entries_map_remove(self.entries@, i as int);
                }
                let _old_entry = self.entries.remove(i);
                proof {
                    assert(!has_key(self.entries@, k)) by {
                        if has_key(self.entries@, k) {
                            let j = choose|j: int|
                                0 <= j < self.entries@.len() && #[trigger] self.entries@[j].0 == k;
                            lemma_entries_map_at(self.entries@, j);
                        }
                    }
                    lemma_entries_map_push(self.entries@, k, v);
                }
                self.entries.push((k, v));
                proof {
                    assert(old(self)@.remove(k).insert(k, v) =~= old(self)@.insert(
                        k,
                        v,
                    ));
                }
            },
            None => {
                proof {
                    lemma_entries_map_push(self.entries@, k, v);
                }
                self.entries.push((k, v));
            },
        }
    }

    /// Removes the value stored under `k` and hands it back, if there was one.
    pub fn remove(&mut self, k: &K) -> (v: Option<V>)
        requires
            old(self).wf(),
        ensures
            final(self).wf(),
            final(self)@ == old(self)@.remove(*k),
            v == (if old(self)@.dom().contains(*k) {
                Some(old(self)@[*k])
            } else {
                None::<V>
            }),
    {
        match self.find(k) {
            Some(i) => {
                proof {
                    lemma_entries_map_at(self.entries@, i as int);
                    lemma_entries_map_remove(self.entries@, i as int);
                }
                let entry = self.entries.remove(i);
                Some(entry.1)
            },
            None => {
                proof {
                    assert(old(self)@.remove(*k) =~= old(self)@);
                }
                None
            },
        }
    }

    /// Removes the values stored under each of `ks`.
    pub fn remove_all(&mut self, ks: &Vec<K>)
        requires
            old(self).wf(),
        ensures
            final(self).wf(),
            final(self)@ == old(self)@.remove_keys(Set::new(|k: K| ks@.contains(k))),
    {
        let mut j: usize = 0;
        while j < ks.len()
            invariant
                self.wf(),
                j <= ks@.len(),
                self@ == old(self)@.remove_keys(
                    Set::new(|k: K| ks@.take(j as int).contains(k)),
                ),
            decreases ks@.len() - j,
        {
            let ghost prev = self@;
            let _ = self.remove(&ks[j]);
            proof {
                assert(ks@.take(j + 1) =~= ks@.take(j as int).push(ks@[j as int]));
                assert forall|k: K| #[trigger] ks@.take(j + 1).contains(k) <==> (ks@.take(
                    j as int,
                ).contains(k) || k == ks@[j as int]) by {
                    let t = ks@.take(j + 1);
                    let p = ks@.take(j as int);
                    if t.contains(k) {
                        let a = choose|a: int| 0 <= a < t.len() && t[a] == k;
                        if a < j {
                            assert(p[a] == k);
                        }
                    }
                    if p.contains(k) {
                        let a = choose|a: int| 0 <= a < p.len() && p[a] == k;
                        assert(t[a] == k);
                    }
                    if k == ks@[j as int] {
                        assert(t[j as int] == k);
                    }
                }
            }
            j = j + 1;
            proof {
                assert(self@ =~= old(self)@.remove_keys(
                    Set::new(|k: K| ks@.take(j as int).contains(k)),
                ));
            }
        }
        proof {
            assert(ks@.take(j as int) =~= ks@);
            assert(self@ =~= old(self)@.remove_keys(Set::new(|k: K| ks@.contains(k))));
        }
    }

    /// The keys of the map, each once.
    pub fn keys(&self) -> (ks: Vec<K>)
        requires
            self.wf(),
        ensures
            ks@.no_duplicates(),
            forall|k: K| #[trigger] ks@.contains(k) <==> self@.dom().contains(k),
    {
        let mut ks: Vec<K> = Vec::new();
        let mut i: usize = 0;
        while i < self.entries.len()
            invariant
                i <= self.entries@.len(),
                keys_distinct(self.entries@),
                ks@.len() == i,
                forall|j: int| 0 <= j < i ==> #[trigger] ks@[j] == self.entries@[j].0,
            decreases self.entries@.len() - i,
        {
            ks.push(self.entries[i].0);
            i = i + 1;
        }
        proof {
            assert forall|k: K| #[trigger] ks@.contains(k) <==> self@.dom().contains(k) by {
                if ks@.contains(k) {
                    let j = choose|j: int| 0 <= j < ks@.len() && ks@[j] == k;
                    assert(self.entries@[j].0 == k);
                }
                if has_key(self.entries@, k) {
                    let j = choose|j: int|
                        0 <= j < self.entries@.len() && #[trigger] self.entries@[j].0 == k;
                    assert(ks@[j] == k);
                }
            }
        }
        ks
    }
}

} // verus!
