//! A small map that keeps its entries in a vector.
//!
//! Keys are compared byte for byte, so the map needs neither a hasher nor an
//! order on its keys, and what it holds is a plain mathematical map.

use vstd::prelude::*;
use crate::primitives::{self, bytes_eq, AuthorityId, ParaId};

verus! {

/// A plain value that can be compared for equality at run time.
pub trait Key: Copy {
    /// Tells whether the two keys are the same value.
    fn same(&self, other: &Self) -> (same: bool)
        ensures
            same == (*self == *other),
    ;
}

impl Key for ParaId {
    fn same(&self, other: &Self) -> (same: bool) {
        self.0 == other.0
    }
}

impl Key for AuthorityId {
    fn same(&self, other: &Self) -> (same: bool) {
        bytes_eq(&self.0, &other.0)
    }
}

impl Key for primitives::Hash {
    fn same(&self, other: &Self) -> (same: bool) {
        bytes_eq(&self.0, &other.0)
    }
}

/// A map from keys to values. No key occurs twice.
#[derive(Debug)]
pub struct VecMap<K: Key, V> {
    entries: Vec<(K, V)>,
}

/// The keys of a list of entries, in order.
pub open spec fn entry_keys<K, V>(entries: Seq<(K, V)>) -> Seq<K> {
    Seq::new(entries.len(), |i: int| entries[i].0)
}

impl<K: Key, V> View for VecMap<K, V> {
    type V = Map<K, V>;

    closed spec fn view(&self) -> Map<K, V> {
        Map::new(
            |k: K| entry_keys(self.entries@).contains(k),
            |k: K| self.entries@[entry_keys(self.entries@).index_of(k)].1,
        )
    }
}

impl<K: Key, V> VecMap<K, V> {
    #[verifier::type_invariant]
    spec fn well_formed(self) -> bool {
        entry_keys(self.entries@).no_duplicates()
    }

    /// The keys in the order in which the map walks them.
    pub closed spec fn key_seq(&self) -> Seq<K> {
        entry_keys(self.entries@)
    }

    /// The empty map.
    pub fn new() -> (map: Self)
        ensures
            map@ == Map::<K, V>::empty(),
            map.key_seq() == Seq::<K>::empty(),
    {
        let map = VecMap { entries: Vec::new() };
        assert(map@ =~= Map::<K, V>::empty());
        assert(map.key_seq() =~= Seq::<K>::empty());
        map
    }

    fn position(&self, key: &K) -> (at: Option<usize>)
        ensures
            match at {
                Some(i) => i < self.entries@.len() && self.entries@[i as int].0 == *key
                    && entry_keys(self.entries@).contains(*key) && entry_keys(
                    self.entries@,
                ).index_of(*key) == i,
                None => !entry_keys(self.entries@).contains(*key),
            },
    {
        proof {
            use_type_invariant(self);
        }
        let ghost keys = entry_keys(self.entries@);
        let mut i: usize = 0;
        while i < self.entries.len()
            invariant
                i <= self.entries.len(),
                keys == entry_keys(self.entries@),
                keys.no_duplicates(),
                forall|j: int| 0 <= j < i ==> keys[j] != *key,
            decreases self.entries.len() - i,
        {
            if self.entries[i].0.same(key) {
                assert(keys[i as int] == *key);
                assert(keys[keys.index_of(*key)] == *key);
                return Some(i);
            }
            i += 1;
        }
        None
    }

    /// The number of entries.
    pub fn len(&self) -> (count: usize)
        ensures
            self@.dom().finite(),
            count == self@.dom().len(),
            count == self.key_seq().len(),
            self.key_seq().no_duplicates(),
            self.key_seq().to_set() == self@.dom(),
    {
        proof {
            use_type_invariant(self);
            entry_keys(self.entries@).unique_seq_to_set();
            assert(entry_keys(self.entries@).to_set() =~= self@.dom());
        }
        self.entries.len()
    }

    /// Tells whether the map has an entry for `key`.
    pub fn contains_key(&self, key: &K) -> (found: bool)
        ensures
            found == self@.contains_key(*key),
    {
        self.position(key).is_some()
    }

    /// The value stored for `key`, if any.
    pub fn get(&self, key: &K) -> (found: Option<&V>)
        ensures
            match found {
                Some(value) => self@.contains_key(*key) && *value == self@[*key],
                None => !self@.contains_key(*key),
            },
    {
        match self.position(key) {
            Some(i) => Some(&self.entries[i].1),
            None => None,
        }
    }

    /// The key at position `i` of the walk.
    pub fn key_at(&self, i: usize) -> (key: K)
        requires
            i < self.key_seq().len(),
        ensures
            key == self.key_seq()[i as int],
            self@.contains_key(key),
    {
        assert(entry_keys(self.entries@)[i as int] == self.entries@[i as int].0);
        self.entries[i].0
    }

    /// The value at position `i` of the walk.
    pub fn value_at(&self, i: usize) -> (value: &V)
        requires
            i < self.key_seq().len(),
        ensures
            self@.contains_key(self.key_seq()[i as int]),
            *value == self@[self.key_seq()[i as int]],
    {
        proof {
            use_type_invariant(self);
            let keys = entry_keys(self.entries@);
            assert(keys[i as int] == self.entries@[i as int].0);
            assert(keys.index_of(keys[i as int]) == i as int);
        }
        &self.entries[i].1
    }

    /// Stores `value` for `key`, in place of what was stored for it before.
    pub fn insert(&mut self, key: K, value: V)
        ensures
            final(self)@ == old(self)@.insert(key, value),
    {
        proof {
            use_type_invariant(&*self);
        }
        let at = self.position(&key);
        let mut entries: Vec<(K, V)> = Vec::new();
        assert(entry_keys(entries@) =~= Seq::<K>::empty());
        std::mem::swap(&mut entries, &mut self.entries);
        let ghost old_entries = entries@;
        let ghost old_keys = entry_keys(old_entries);
        match at {
            Some(i) => {
                entries.set(i, (key, value));
                proof {
                    assert(entry_keys(entries@) =~= old_keys);
                }
            },
            None => {
                entries.push((key, value));
                proof {
                    assert(entry_keys(entries@) =~= old_keys.push(key));
                }
            },
        }
        let ghost keys = entry_keys(entries@);
        proof {
            assert(keys.no_duplicates());
            assert(keys.contains(key)) by {
                match at {
                    Some(i) => {
                        assert(keys[i as int] == key);
                    },
                    None => {
                        assert(keys[old_keys.len() as int] == key);
                    },
                }
            }
            assert forall|k: K| keys.contains(k) <==> (k == key || old_keys.contains(k)) by {
                if keys.contains(k) && k != key {
                    let j = keys.index_of(k);
                    assert(keys[j] == k);
                    assert(old_keys[j] == k);
                }
                if old_keys.contains(k) {
                    let j = old_keys.index_of(k);
                    assert(old_keys[j] == k);
                    assert(keys[j] == k);
                }
            }
            assert forall|k: K| keys.contains(k) && k != key implies entries@[keys.index_of(k)].1
                == old_entries[old_keys.index_of(k)].1 by {
                let j = keys.index_of(k);
                assert(keys[j] == k);
                assert(old_keys[j] == k);
                let j2 = old_keys.index_of(k);
                assert(old_keys[j2] == k);
            }
            assert(entries@[keys.index_of(key)].1 == value) by {
                let j = keys.index_of(key);
                assert(keys[j] == key);
                match at {
                    Some(i) => {
                        assert(keys[i as int] == key);
                    },
                    None => {
                        assert(keys[old_keys.len() as int] == key);
                    },
                }
            }
        }
        self.entries = entries;
        assert(self@ =~= old(self)@.insert(key, value));
    }

    /// Takes the entry for `key` out of the map and hands back its value.
    pub fn remove(&mut self, key: &K) -> (removed: Option<V>)
        ensures
            final(self)@ == old(self)@.remove(*key),
            match removed {
                Some(value) => old(self)@.contains_key(*key) && value == old(self)@[*key],
                None => !old(self)@.contains_key(*key),
            },
    {
        proof {
            use_type_invariant(&*self);
        }
        match self.position(key) {
            Some(i) => {
                let mut entries: Vec<(K, V)> = Vec::new();
                assert(entry_keys(entries@) =~= Seq::<K>::empty());
                std::mem::swap(&mut entries, &mut self.entries);
                let ghost old_entries = entries@;
                let ghost old_keys = entry_keys(old_entries);
                let entry = entries.remove(i);
                let ghost keys = entry_keys(entries@);
                proof {
                    assert(old_keys[i as int] == *key);
                    assert(entry == old_entries[i as int]);
                    assert(keys =~= old_keys.remove(i as int));
                    assert forall|a: int, b: int| 0 <= a < b < keys.len() implies keys[a]
                        != keys[b] by {
                        let a2 = if a < i { a } else { a + 1 };
                        let b2 = if b < i { b } else { b + 1 };
                        assert(keys[a] == old_keys[a2]);
                        assert(keys[b] == old_keys[b2]);
                    }
                    assert forall|k: K| keys.contains(k) <==> (k != *key && old_keys.contains(k)) by {
                        if keys.contains(k) {
                            let j = keys.index_of(k);
                            assert(keys[j] == k);
                            let j2 = if j < i { j } else { j + 1 };
                            assert(old_keys[j2] == k);
                        }
                        if k != *key && old_keys.contains(k) {
                            let j = old_keys.index_of(k);
                            assert(old_keys[j] == k);
                            let j2 = if j < i { j } else { j - 1 };
                            assert(keys[j2] == k);
                        }
                    }
                    assert forall|k: K| keys.contains(k) implies entries@[keys.index_of(k)].1
                        == old_entries[old_keys.index_of(k)].1 by {
                        let j = keys.index_of(k);
                        assert(keys[j] == k);
                        let j2 = if j < i { j } else { j + 1 };
                        assert(old_keys[j2] == k);
                        let j3 = old_keys.index_of(k);
                        assert(old_keys[j3] == k);
                    }
                }
                self.entries = entries;
                assert(self@ =~= old(self)@.remove(*key));
                Some(entry.1)
            },
            None => {
                assert(self@ =~= old(self)@.remove(*key));
                None
            },
        }
    }

    /// Takes some entry out of the map, if the map has any.
    pub fn pop(&mut self) -> (entry: Option<(K, V)>)
        ensures
            match entry {
                Some(entry) => old(self)@.contains_key(entry.0) && entry.1 == old(self)@[entry.0]
                    && final(self)@ == old(self)@.remove(entry.0),
                None => old(self)@ == Map::<K, V>::empty() && final(self)@ == old(self)@,
            },
    {
        proof {
            use_type_invariant(&*self);
        }
        let mut entries: Vec<(K, V)> = Vec::new();
        assert(entry_keys(entries@) =~= Seq::<K>::empty());
        std::mem::swap(&mut entries, &mut self.entries);
        let ghost old_entries = entries@;
        let ghost old_keys = entry_keys(old_entries);
        let entry = entries.pop();
        let ghost popped = entry;
        let ghost keys = entry_keys(entries@);
        proof {
            match popped {
                Some(entry) => {
                    let last = old_entries.len() - 1;
                    assert(keys =~= old_keys.drop_last());
                    assert(old_keys[last] == entry.0);
                    assert(old_keys.index_of(entry.0) == last) by {
                        let j = old_keys.index_of(entry.0);
                        assert(old_keys[j] == entry.0);
                    }
                    assert forall|k: K| keys.contains(k) <==> (k != entry.0 && old_keys.contains(
                        k,
                    )) by {
                        if keys.contains(k) {
                            let j = keys.index_of(k);
                            assert(keys[j] == k);
                            assert(old_keys[j] == k);
                        }
                        if k != entry.0 && old_keys.contains(k) {
                            let j = old_keys.index_of(k);
                            assert(old_keys[j] == k);
                            assert(keys[j] == k);
                        }
                    }
                    assert forall|k: K| keys.contains(k) implies entries@[keys.index_of(k)].1
                        == old_entries[old_keys.index_of(k)].1 by {
                        let j = keys.index_of(k);
                        assert(keys[j] == k);
                        assert(old_keys[j] == k);
                        let j2 = old_keys.index_of(k);
                        assert(old_keys[j2] == k);
                    }
                },
                None => {
                    assert(old_keys =~= Seq::<K>::empty());
                },
            }
        }
        self.entries = entries;
        proof {
            match popped {
                Some(entry) => {
                    assert(self@ =~= old(self)@.remove(entry.0));
                },
                None => {
                    assert(old(self)@ =~= Map::<K, V>::empty());
                    assert(self@ =~= old(self)@);
                },
            }
        }
        entry
    }
}

} // verus!
