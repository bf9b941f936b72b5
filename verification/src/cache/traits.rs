//! What the cache asks of its keys and entries, and what a transposition
//! table offers.

use vstd::prelude::*;
use std::marker::PhantomData;

verus! {

/// A key that has a signature of its own: a hash that is the same whenever
/// it is asked for.
pub trait TranspositionHash<Target = u64> {
    /// The signature of the key.
    spec fn spec_hash(&self) -> Target;

    /// Returns the signature of the key.
    fn hash(&self) -> (h: Target)
        ensures
            h == self.spec_hash(),
    ;
}

/// A transposition table is a hash table that stores positions together with
/// associated data, such as evaluated scores, best moves, or node counts.
///
/// The table knows a key by its signature only. Two keys of one signature
/// are the same key to it, and the value of the one is returned for the
/// other. Two signatures that probe the same slot are told apart by the
/// stored signature.
///
/// An insertion may be dropped when the table has no room for the signature.
/// It is never an error, and a lookup then reports the key as absent.
pub trait TranspositionTable<K, V, E = Entry64<K, V>> where
    K: TranspositionHash,
    E: Entry<Key = K, Value = V, RawKey = u64>,
 {
    /// The table's invariant.
    spec fn wf(&self) -> bool;

    /// The signatures that the table holds, each with its value.
    spec fn view(&self) -> Map<u64, V>;

    /// Looks up a key, and returns the value that the table holds for its
    /// signature, if it holds one.
    fn get<'a>(&'a self, k: &K) -> (r: Option<&'a V>) where E: 'a
        requires
            self.wf(),
        ensures
            match r {
                Some(v) => self@.contains_key(k.spec_hash()) && self@[k.spec_hash()] == *v,
                None => !self@.contains_key(k.spec_hash()),
            },
    ;

    /// Inserts a key with its value. Where the table holds the key's
    /// signature, the value is replaced and the old one returned. Where it
    /// does not, the pair is added if there is room for it, and dropped if
    /// there is none; `None` is returned either way.
    fn insert(&mut self, k: K, v: V) -> (r: Option<V>)
        requires
            old(self).wf(),
        ensures
            final(self).wf(),
            final(self)@ == old(self)@.insert(k.spec_hash(), v) || final(self)@ == old(self)@,
            old(self)@.contains_key(k.spec_hash()) ==> {
                &&& r == Some(old(self)@[k.spec_hash()])
                &&& final(self)@ == old(self)@.insert(k.spec_hash(), v)
            },
            !old(self)@.contains_key(k.spec_hash()) ==> r is None,
    ;
}

/// Marks a table in which an insertion of a key that the table holds always
/// replaces the value: after `insert(k, v1)` was kept, `insert(k, v2)` leaves
/// `v2` as the value of `k`.
pub trait AlwaysReplacePolicy {
}

/// An entry of a transposition table: a signature and a value.
pub trait Entry: Sized {
    /// The key type of the entry, by which the entry is looked up.
    type Key: TranspositionHash<Self::RawKey>;

    /// The signature type of the entry, as it is stored in the table.
    type RawKey;

    /// The value type of the entry, as it is stored in the table.
    type Value;

    /// The signature that the entry holds.
    spec fn spec_raw_key(&self) -> Self::RawKey;

    /// The value that the entry holds.
    spec fn spec_value(&self) -> Self::Value;

    /// Creates a new entry from the given key and value.
    fn new(k: Self::Key, v: Self::Value) -> (e: Self)
        ensures
            e.spec_raw_key() == k.spec_hash(),
            e.spec_value() == v,
    ;

    /// Returns a reference to the signature of the entry.
    fn raw_key(&self) -> (k: &Self::RawKey)
        ensures
            *k == self.spec_raw_key(),
    ;

    /// Returns a mutable reference to the signature of the entry.
    fn raw_key_mut(&mut self) -> (k: &mut Self::RawKey)
        ensures
            *k == old(self).spec_raw_key(),
            final(self).spec_raw_key() == *final(k),
            final(self).spec_value() == old(self).spec_value(),
    ;

    /// Returns a reference to the value of the entry.
    fn value(&self) -> (v: &Self::Value)
        ensures
            *v == self.spec_value(),
    ;

    /// Returns a mutable reference to the value of the entry.
    fn value_mut(&mut self) -> (v: &mut Self::Value)
        ensures
            *v == old(self).spec_value(),
            final(self).spec_value() == *final(v),
            final(self).spec_raw_key() == old(self).spec_raw_key(),
    ;

    /// Replaces the value of the entry with the given value and returns the
    /// old value.
    fn replace(&mut self, v: Self::Value) -> (previous: Self::Value)
        ensures
            previous == old(self).spec_value(),
            final(self).spec_value() == v,
            final(self).spec_raw_key() == old(self).spec_raw_key(),
    ;

    /// Takes the entry apart into its signature and its value.
    fn take(self) -> (pair: (Self::RawKey, Self::Value))
        ensures
            pair.0 == self.spec_raw_key(),
            pair.1 == self.spec_value(),
    ;
}

/// An entry with a 64-bit signature.
pub struct Entry64<K, V> {
    key: u64,
    value: V,
    _marker: PhantomData<K>,
}

impl<K: TranspositionHash, V> Entry for Entry64<K, V> {
    type Key = K;

    type RawKey = u64;

    type Value = V;

    closed spec fn spec_raw_key(&self) -> u64 {
        self.key
    }

    closed spec fn spec_value(&self) -> V {
        self.value
    }

    fn new(k: K, v: V) -> (e: Self) {
        Entry64 { key: k.hash(), value: v, _marker: PhantomData }
    }

    fn raw_key(&self) -> (k: &u64) {
        &self.key
    }

    fn raw_key_mut(&mut self) -> (k: &mut u64) {
        &mut self.key
    }

    fn value(&self) -> (v: &V) {
        &self.value
    }

    fn value_mut(&mut self) -> (v: &mut V) {
        &mut self.value
    }

    fn replace(&mut self, v: V) -> (previous: V) {
        let mut held = v;
        std::mem::swap(&mut self.value, &mut held);
        held
    }

    fn take(self) -> (pair: (u64, V)) {
        (self.key, self.value)
    }
}

/// A transposition table that hands out whole entries.
pub trait EntryBasedTranspositionTable<E> where
    E: Entry<RawKey = u64>,
    E::Key: TranspositionHash,
 {
    /// The table's invariant.
    spec fn sound(&self) -> bool;

    /// The signatures that the table holds, each with its entry.
    spec fn entries(&self) -> Map<u64, E>;

    /// Looks up a key, and returns the entry that the table holds for its
    /// signature, if it holds one.
    fn get_entry(&self, k: &E::Key) -> (r: Option<&E>)
        requires
            self.sound(),
        ensures
            match r {
                Some(entry) => self.entries().contains_key(k.spec_hash()) && self.entries()[k.spec_hash()]
                    == *entry,
                None => !self.entries().contains_key(k.spec_hash()),
            },
    ;

    /// Inserts a key with its value, and returns the entry that it
    /// replaced, if any. An insertion for which the table has no room is
    /// dropped.
    fn insert_entry(&mut self, k: E::Key, v: E::Value) -> (r: Option<E>)
        requires
            old(self).sound(),
        ensures
            final(self).sound(),
            final(self).entries() == old(self).entries() || {
                &&& final(self).entries().dom() == old(self).entries().dom().insert(k.spec_hash())
                &&& final(self).entries()[k.spec_hash()].spec_raw_key() == k.spec_hash()
                &&& final(self).entries()[k.spec_hash()].spec_value() == v
                &&& forall|other: u64|
                    other != k.spec_hash() && old(self).entries().contains_key(other)
                        ==> final(self).entries()[other] == #[trigger] old(self).entries()[other]
            },
            old(self).entries().contains_key(k.spec_hash()) ==> {
                &&& r == Some(old(self).entries()[k.spec_hash()])
                &&& final(self).entries().contains_key(k.spec_hash())
                &&& final(self).entries()[k.spec_hash()].spec_value() == v
            },
            !old(self).entries().contains_key(k.spec_hash()) ==> r is None,
    ;
}

} // verus!
