//! A small map kept in two vectors, looked up from the front.

use vstd::prelude::*;

use crate::text::{same_bytes, same_text};

verus! {

/// Keys that are compared by what they hold.
pub trait Key: View + Sized {
    /// Whether two keys hold the same.
    fn same(&self, other: &Self) -> (same: bool)
        ensures
            same == (self@ == other@),
    ;
}

impl Key for Vec<u8> {
    fn same(&self, other: &Self) -> (same: bool) {
        same_bytes(self.as_slice(), other.as_slice())
    }
}

impl Key for String {
    fn same(&self, other: &Self) -> (same: bool) {
        same_text(self.as_str(), other.as_str())
    }
}

/// A map from keys to values: no two keys in it hold the same.
pub struct Table<K: Key, T> {
    keys: Vec<K>,
    values: Vec<T>,
}

impl<K: Key, T> View for Table<K, T> {
    type V = Map<K::V, T>;

    closed spec fn view(&self) -> Map<K::V, T> {
        Map::new(
            |k: K::V| self.key_views().contains(k),
            |k: K::V| self.values@[self.key_views().index_of(k)],
        )
    }
}

impl<K: Key, T> Table<K, T> {
    spec fn key_views(&self) -> Seq<K::V> {
        self.keys@.map_values(|k: K| k@)
    }

    /// One value for each key, and each key once.
    pub closed spec fn wf(&self) -> bool {
        &&& self.keys@.len() == self.values@.len()
        &&& self.key_views().no_duplicates()
    }

    /// A table without entries.
    pub fn new() -> (table: Self)
        ensures
            table.wf(),
            table@ == Map::<K::V, T>::empty(),
    {
        let table = Table { keys: Vec::new(), values: Vec::new() };
        assert(table@ =~= Map::<K::V, T>::empty());
        table
    }

    /// Where `key` stands among the keys.
    fn position(&self, key: &K) -> (at: Option<usize>)
        requires
            self.wf(),
        ensures
            match at {
                Some(i) => i < self.keys@.len() && self.key_views()[i as int] == key@
                    && self@.contains_key(key@) && self@[key@] == self.values@[i as int],
                None => !self@.contains_key(key@),
            },
    {
        let mut i: usize = 0;
        while i < self.keys.len()
            invariant
                self.wf(),
                i <= self.keys@.len(),
                forall|j: int| 0 <= j < i ==> self.key_views()[j] != key@,
            decreases self.keys@.len() - i,
        {
            if self.keys[i].same(key) {
                assert(self.key_views()[i as int] == key@);
                assert(self.key_views().contains(key@));
                return Some(i);
            }
            i = i + 1;
        }
        None
    }

    /// The value under `key`.
    pub fn get(&self, key: &K) -> (value: Option<&T>)
        requires
            self.wf(),
        ensures
            match value {
                Some(v) => self@.contains_key(key@) && *v == self@[key@],
                None => !self@.contains_key(key@),
            },
    {
        match self.position(key) {
            Some(i) => Some(&self.values[i]),
            None => None,
        }
    }

    /// Puts `value` under `key`, in place of what was there.
    pub fn insert(&mut self, key: K, value: T)
        requires
            old(self).wf(),
        ensures
            final(self).wf(),
            final(self)@ == old(self)@.insert(key@, value),
    {
        match self.position(&key) {
            Some(i) => {
                let ghost before = *self;
                self.values.set(i, value);
                assert(self.key_views() == before.key_views());
                assert forall|k: K::V| self.key_views().contains(k) implies self.values@[
                    self.key_views().index_of(k)
                ] == before@.insert(key@, value)[k] by {
                    let j = self.key_views().index_of(k);
                    assert(self.key_views()[j] == k);
                    if j != i {
                        assert(k != key@);
                    }
                }
                assert(self@ =~= before@.insert(key@, value));
            },
            None => {
                let ghost before = *self;
                let ghost k0 = key@;
                self.keys.push(key);
                self.values.push(value);
                assert(self.key_views() =~= before.key_views().push(k0));
                assert(self.key_views().last() == k0);
                assert forall|k: K::V| self.key_views().contains(k) implies before@.insert(
                    k0,
                    value,
                ).contains_key(k) && self.values@[self.key_views().index_of(k)] == before@.insert(
                    k0,
                    value,
                )[k] by {
                    let j = self.key_views().index_of(k);
                    assert(self.key_views()[j] == k);
                    if j < before.key_views().len() {
                        assert(before.key_views()[j] == k);
                        assert(before.key_views().contains(k));
                        let b = before.key_views().index_of(k);
                        assert(before.key_views()[b] == k);
                        assert(b == j);
                    }
                }
                assert forall|k: K::V| before@.insert(k0, value).contains_key(k) implies
                    self.key_views().contains(k) by {
                    if k != k0 {
                        let b = before.key_views().index_of(k);
                        assert(self.key_views()[b] == k);
                    }
                }
                assert(self@ =~= before@.insert(k0, value));
            },
        }
    }
}

} // verus!
