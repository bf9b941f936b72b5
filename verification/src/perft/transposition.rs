//! A transposition table on a hash map, and hashers for keys that are
//! hashes already.

use vstd::prelude::*;
use vstd::std_specs::hash::builds_valid_hashers;
use std::collections::HashMap;
use std::hash::{BuildHasher, Hasher};
use std::marker::PhantomData;

verus! {

/// `HashMap::with_hasher` makes an empty map.
pub assume_specification<K, V, S>[ HashMap::<K, V, S>::with_hasher ](hash_builder: S) -> (made: HashMap<K, V, S>)
    ensures
        made@.is_empty(),
;

/// `HashMap::with_capacity_and_hasher` makes an empty map, whatever room it
/// sets aside.
pub assume_specification<K, V, S>[ HashMap::<K, V, S>::with_capacity_and_hasher ](capacity: usize, hasher: S) -> (made: HashMap<K, V, S>)
    ensures
        made@.is_empty(),
;

/// Asks `HashMap::capacity` how many pairs the map has room for as it
/// stands, which is for the allocator to decide.
#[verifier::external_body]
fn room<D, H>(table: &HashMap<u64, D, H>) -> usize {
    table.capacity()
}

/// A type that can be hashed directly to a `u64`. This is useful for types
/// that already include a hash value, such as a Zobrist hash.
pub trait DirectHash {
    /// The hash of the value.
    spec fn spec_get_hash(&self) -> u64;

    /// Returns the hash of the value.
    fn get_hash(&self) -> (hash: u64)
        ensures
            hash == self.spec_get_hash(),
    ;
}

/// A transposition table that stores associative data `D` for a state `S`,
/// which it knows by its hash.
pub trait TranspositionTable<S, D> where S: DirectHash {
    /// Whether the table keeps what it is given: a table that does maps each
    /// hash that was inserted to the data inserted last under it.
    spec fn keeps(&self) -> bool;

    /// The hashes that the table holds, each with its data.
    spec fn view(&self) -> Map<u64, D>;

    /// Returns `true` if the table holds the state's hash.
    fn contains(&self, state: &S) -> (r: bool)
        ensures
            self.keeps() ==> r == self@.contains_key(state.spec_get_hash()),
    {
        self.get(state).is_some()
    }

    /// Returns the data held under the state's hash, if any.
    fn get(&self, state: &S) -> (r: Option<&D>)
        ensures
            self.keeps() ==> (match r {
                Some(data) => self@.contains_key(state.spec_get_hash()) && self@[state.spec_get_hash()]
                    == *data,
                None => !self@.contains_key(state.spec_get_hash()),
            }),
    ;

    /// Inserts the state's hash with its data, and returns the data that was
    /// held under the hash before, if any.
    fn insert(&mut self, state: &S, data: D) -> (r: Option<D>)
        ensures
            final(self).keeps() == old(self).keeps(),
            old(self).keeps() ==> {
                &&& final(self)@ == old(self)@.insert(state.spec_get_hash(), data)
                &&& r == (if old(self)@.contains_key(state.spec_get_hash()) {
                    Some(old(self)@[state.spec_get_hash()])
                } else {
                    None
                })
            },
    ;

    /// Returns the number of elements the table can hold without
    /// reallocating.
    fn capacity(&self) -> usize;

    /// Returns the number of elements currently in the table.
    fn size(&self) -> (n: usize)
        ensures
            self.keeps() ==> n == self@.len(),
    ;
}

/// A transposition table, on a hash map from the hash of a state to the data.
/// Two states of one hash are one state to it. Unless another hasher is
/// given, the keys are spread with `SplitMix64`.
#[verifier::reject_recursive_types(H)]
pub struct TranspositionHashMap<S, D, H: BuildHasher = SplitMix64> {
    table: HashMap<u64, D, H>,
    _phantom: PhantomData<S>,
}

impl<S, D, H> TranspositionHashMap<S, D, H> where S: DirectHash, H: BuildHasher {
    /// The hashes that the table holds, each with its data.
    pub closed spec fn entries(&self) -> Map<u64, D> {
        self.table@
    }

    /// Create a new transposition table without a capacity limit using the
    /// given hasher.
    pub fn with_hasher(hasher: H) -> (table: Self)
        ensures
            table.entries() == Map::<u64, D>::empty(),
    {
        let table = TranspositionHashMap { table: HashMap::with_hasher(hasher), _phantom: PhantomData };
        assert(table.entries() =~= Map::<u64, D>::empty());
        table
    }

    /// Create a new transposition table with the given hasher and capacity.
    pub fn with_capacity_and_hasher(capacity: usize, hasher: H) -> (table: Self)
        ensures
            table.entries() == Map::<u64, D>::empty(),
    {
        let table = TranspositionHashMap {
            table: HashMap::with_capacity_and_hasher(capacity, hasher),
            _phantom: PhantomData,
        };
        assert(table.entries() =~= Map::<u64, D>::empty());
        table
    }
}

impl<S, D> TranspositionHashMap<S, D, SplitMix64> where S: DirectHash {
    /// Create a new transposition table with no capacity limit, which
    /// spreads its keys with `SplitMix64`.
    pub fn new() -> (table: Self)
        ensures
            table.entries() == Map::<u64, D>::empty(),
    {
        Self::with_hasher(SplitMix64::default())
    }

    /// Create a new transposition table with room for the given number of
    /// entries, which spreads its keys with `SplitMix64`.
    pub fn with_capacity(capacity: usize) -> (table: Self)
        ensures
            table.entries() == Map::<u64, D>::empty(),
    {
        Self::with_capacity_and_hasher(capacity, SplitMix64::default())
    }
}

impl<S, D, H> TranspositionTable<S, D> for TranspositionHashMap<S, D, H> where
    S: DirectHash,
    H: BuildHasher,
 {
    /// The table keeps what it is given if its hasher hashes equal keys
    /// equally.
    open spec fn keeps(&self) -> bool {
        builds_valid_hashers::<H>()
    }

    open spec fn view(&self) -> Map<u64, D> {
        self.entries()
    }

    fn contains(&self, state: &S) -> (r: bool) {
        let hash = state.get_hash();
        broadcast use vstd::std_specs::hash::group_hash_axioms;

        self.table.contains_key(&hash)
    }

    fn get(&self, state: &S) -> (r: Option<&D>) {
        let hash = state.get_hash();
        broadcast use vstd::std_specs::hash::group_hash_axioms;

        self.table.get(&hash)
    }

    fn insert(&mut self, state: &S, data: D) -> (r: Option<D>) {
        let hash = state.get_hash();
        broadcast use vstd::std_specs::hash::group_hash_axioms;

        self.table.insert(hash, data)
    }

    fn capacity(&self) -> usize {
        room(&self.table)
    }

    fn size(&self) -> (n: usize) {
        broadcast use vstd::std_specs::hash::group_hash_axioms;

        self.table.len()
    }
}

/// The SplitMix64 finalizer, which spreads the bits of a word over the word.
pub open spec fn spec_splitmix(x: u64) -> u64 {
    let a = x ^ (x >> 30);
    let b = vstd::wrapping::u64_specs::wrapping_mul(a, 0xbf58476d1ce4e5b9u64);
    let c = b ^ (b >> 27);
    let d = vstd::wrapping::u64_specs::wrapping_mul(c, 0x94d049bb133111ebu64);
    d ^ (d >> 31)
}

/// Spreads the bits of a word over the word.
pub fn splitmix(x: u64) -> (r: u64)
    ensures
        r == spec_splitmix(x),
{
    let a = x ^ (x >> 30);
    let b = a.wrapping_mul(0xbf58476d1ce4e5b9u64);
    let c = b ^ (b >> 27);
    let d = c.wrapping_mul(0x94d049bb133111ebu64);
    d ^ (d >> 31)
}

/// A hasher that passes through the value without hashing anything. This is
/// useful for types that already include a hash value.
pub struct TransparentHasher {
    value: u64,
}

impl TransparentHasher {
    /// The word that the hasher holds.
    pub closed spec fn held(&self) -> u64 {
        self.value
    }

    /// Creates a hasher that holds 0.
    pub fn new() -> (hasher: Self)
        ensures
            hasher.held() == 0,
    {
        TransparentHasher { value: 0 }
    }

    /// Takes a word as the hash.
    pub fn pass(&mut self, i: u64)
        ensures
            final(self).held() == i,
    {
        self.value = i;
    }

    /// Returns the word that was taken last.
    pub fn digest(&self) -> (hash: u64)
        ensures
            hash == self.held(),
    {
        self.value
    }
}

impl Hasher for TransparentHasher {
    /// The hash is the word that was taken last.
    fn finish(&self) -> (hash: u64)
        ensures
            hash == self.held(),
    {
        self.value
    }

    /// Bytes are not hash values: they are passed over.
    fn write(&mut self, bytes: &[u8])
        ensures
            final(self).held() == old(self).held(),
    {
    }

    /// Takes the word as the hash.
    fn write_u64(&mut self, i: u64)
        ensures
            final(self).held() == i,
    {
        self.value = i;
    }
}

impl BuildHasher for TransparentHasher {
    type Hasher = TransparentHasher;

    /// Every hasher starts from 0, whatever the builder holds.
    fn build_hasher(&self) -> (hasher: TransparentHasher)
        ensures
            hasher.held() == 0,
    {
        TransparentHasher { value: 0 }
    }
}

/// A hasher that uses the SplitMix64 algorithm to redistribute the keys,
/// to avoid clustering in a hash map.
pub struct SplitMix64 {
    value: u64,
}

impl SplitMix64 {
    /// The word that the hasher holds.
    pub closed spec fn held(&self) -> u64 {
        self.value
    }

    /// Takes the mix of a word as the hash.
    pub fn mix(&mut self, i: u64)
        ensures
            final(self).held() == spec_splitmix(i),
    {
        self.value = splitmix(i);
    }

    /// Returns the mix of the word that was taken last.
    pub fn digest(&self) -> (hash: u64)
        ensures
            hash == self.held(),
    {
        self.value
    }
}

impl Hasher for SplitMix64 {
    /// The hash is the mix of the word that was taken last.
    fn finish(&self) -> (hash: u64)
        ensures
            hash == self.held(),
    {
        self.value
    }

    /// Bytes are not hash values: they are passed over.
    fn write(&mut self, bytes: &[u8])
        ensures
            final(self).held() == old(self).held(),
    {
    }

    /// Takes the mix of the word as the hash.
    fn write_u64(&mut self, i: u64)
        ensures
            final(self).held() == spec_splitmix(i),
    {
        self.value = splitmix(i);
    }
}

impl BuildHasher for SplitMix64 {
    type Hasher = SplitMix64;

    /// Every hasher starts from 0, whatever the builder holds.
    fn build_hasher(&self) -> (hasher: SplitMix64)
        ensures
            hasher.held() == 0,
    {
        SplitMix64 { value: 0 }
    }
}

impl Default for SplitMix64 {
    fn default() -> (hasher: Self)
        ensures
            hasher.held() == 0,
    {
        SplitMix64 { value: 0 }
    }
}

} // verus!
