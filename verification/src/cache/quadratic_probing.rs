//! The cache itself: a fixed number of slots, probed in a bounded quadratic
//! sequence, in which an insertion always replaces.

use vstd::prelude::*;
use vstd::layout::size_of;
use std::marker::PhantomData;
use crate::cache::probing::{
    contents, fits, is_power_of_two, lemma_contents_store, lemma_empty_slots, lemma_locate_sound,
    lemma_occupied_bound, lemma_occupied_store, lemma_probes_bounded,
    lemma_store_valid, lemma_valid_nonempty, locate, lookup, occupied, power_of_two, probe_slot,
    probes, store, valid, Probe, RETRIES,
};
use crate::cache::traits::{
    AlwaysReplacePolicy, Entry, EntryBasedTranspositionTable, TranspositionHash,
    TranspositionTable,
};

verus! {

/// A transposition table of a fixed number of slots.
///
/// A key is known by its 64-bit signature. Signature 0 marks an empty slot:
/// a key of signature 0 is never stored and never found. A lookup and an
/// insertion examine at most `RETRIES` slots, however full the table is, and
/// an insertion that finds neither its signature nor an empty slot among
/// them is dropped. The table never grows.
pub struct QuadraticProbingTableBase<K, V, E> {
    entries: Vec<Option<E>>,
    capacity: usize,
    size: usize,
    mask: usize,
    _marker: PhantomData<(K, V)>,
}

impl<K, V, E> QuadraticProbingTableBase<K, V, E> where
    K: TranspositionHash,
    E: Entry<Key = K, Value = V, RawKey = u64>,
 {
    /// The slots of the table, first to last: `None` for an empty slot, else
    /// the signature and the value that the slot holds.
    pub closed spec fn slots(&self) -> Seq<Option<(u64, V)>> {
        Seq::new(
            self.entries.len() as nat,
            |i: int|
                match self.entries[i] {
                    Some(entry) => Some((entry.spec_raw_key(), entry.spec_value())),
                    None => None::<(u64, V)>,
                },
        )
    }

    /// The number of occupied slots, as the table counts them.
    pub closed spec fn spec_size(&self) -> usize {
        self.size
    }

    /// The number of slots that the table was made with.
    pub closed spec fn spec_capacity(&self) -> usize {
        self.capacity
    }

    /// The private fields agree with each other.
    pub closed spec fn consistent(&self) -> bool {
        &&& self.entries.len() == self.capacity
        &&& self.mask + 1 == self.capacity
    }

    /// The table's invariant: the slots are valid, they are as many as the
    /// capacity, and the size counts the occupied ones.
    pub open spec fn wf(&self) -> bool {
        &&& self.consistent()
        &&& valid(self.slots())
        &&& self.slots().len() == self.spec_capacity()
        &&& self.spec_size() == occupied(self.slots())
    }

    /// The signatures that the table holds, each with its value.
    pub open spec fn view(&self) -> Map<u64, V> {
        contents(self.slots())
    }

    /// Creates a table with the given number of slots, all of them empty.
    /// The number must be a power of two.
    pub fn new(slots: usize) -> (table: Self)
        requires
            is_power_of_two(slots as nat),
        ensures
            table.wf(),
            table.spec_capacity() == slots,
            table.spec_size() == 0,
            table@ == Map::<u64, V>::empty(),
            forall|i: int| 0 <= i < slots ==> (#[trigger] table.slots()[i]) is None,
    {
        let mut entries: Vec<Option<E>> = Vec::new();
        let mut i: usize = 0;
        while i < slots
            invariant
                i <= slots,
                entries.len() == i,
                forall|j: int| 0 <= j < i ==> (#[trigger] entries[j]) is None,
            decreases slots - i,
        {
            entries.push(None);
            i = i + 1;
        }
        proof {
            assert(0 < slots) by {
                reveal(vstd::arithmetic::power2::is_pow2);
            }
        }
        let table = QuadraticProbingTableBase {
            entries,
            capacity: slots,
            size: 0,
            mask: slots - 1,
            _marker: PhantomData,
        };
        proof {
            lemma_empty_slots(table.slots());
        }
        table
    }

    /// Creates a table with the given number of slots if that number is a
    /// power of two, and none if it is not.
    pub fn try_new(slots: usize) -> (r: Option<Self>)
        ensures
            r is Some <==> is_power_of_two(slots as nat),
            r matches Some(table) ==> {
                &&& table.wf()
                &&& table.spec_capacity() == slots
                &&& table.spec_size() == 0
                &&& table@ == Map::<u64, V>::empty()
            },
    {
        if power_of_two(slots) {
            Some(Self::new(slots))
        } else {
            None
        }
    }

    /// Follows the probe sequence of `signature`, and returns what it comes
    /// to together with the number of slots that it examined.
    pub fn probe(&self, signature: u64) -> (r: (Probe, usize))
        requires
            self.wf(),
        ensures
            r.0 == locate(self.slots(), signature, 0),
            r.1 == probes(self.slots(), signature, 0),
            1 <= r.1 <= RETRIES,
    {
        let mut attempts: usize = 0;
        proof {
            lemma_valid_nonempty(self.slots());
            lemma_probes_bounded(self.slots(), signature, 0);
        }
        while attempts < RETRIES
            invariant
                attempts <= RETRIES,
                self.wf(),
                locate(self.slots(), signature, attempts as nat) == locate(
                    self.slots(),
                    signature,
                    0,
                ),
                probes(self.slots(), signature, 0) == attempts + probes(
                    self.slots(),
                    signature,
                    attempts as nat,
                ),
            decreases RETRIES - attempts,
        {
            let i = probe_slot(signature, attempts, self.mask);
            match &self.entries[i] {
                None => {
                    return (Probe::Vacant(i), attempts + 1);
                },
                Some(entry) => {
                    if *entry.raw_key() == signature {
                        return (Probe::Found(i), attempts + 1);
                    }
                },
            }
            attempts = attempts + 1;
        }
        (Probe::Exhausted, attempts)
    }

    /// Looks up a key, and returns the value stored with its signature, if
    /// the probes find the signature.
    pub fn get(&self, k: &K) -> (r: Option<&V>)
        requires
            self.wf(),
        ensures
            match r {
                Some(v) => lookup(self.slots(), k.spec_hash()) == Some(*v),
                None => lookup(self.slots(), k.spec_hash()) is None,
            },
    {
        let hash = k.hash();
        if hash == 0 {
            return None;
        }
        proof {
            lemma_valid_nonempty(self.slots());
            lemma_locate_sound(self.slots(), hash, 0);
        }
        let (outcome, _) = self.probe(hash);
        match outcome {
            Probe::Found(i) => match &self.entries[i] {
                Some(entry) => Some(entry.value()),
                None => None,
            },
            _ => None,
        }
    }

    /// Inserts a key with its value, and returns the value that it replaced,
    /// if any. The insertion is dropped, and the table left as it was, where
    /// the key's signature is 0 or its probes are exhausted.
    pub fn insert(&mut self, k: K, v: V) -> (r: Option<V>)
        requires
            old(self).wf(),
        ensures
            final(self).wf(),
            final(self).slots() == store(old(self).slots(), k.spec_hash(), v),
            final(self).spec_capacity() == old(self).spec_capacity(),
            r == lookup(old(self).slots(), k.spec_hash()),
    {
        let hash = k.hash();
        if hash == 0 {
            return None;
        }
        proof {
            lemma_valid_nonempty(self.slots());
            lemma_locate_sound(self.slots(), hash, 0);
            lemma_store_valid(self.slots(), hash, v);
            lemma_occupied_store(self.slots(), hash, v);
            lemma_occupied_bound(store(self.slots(), hash, v));
        }
        let (outcome, _) = self.probe(hash);
        match outcome {
            Probe::Found(i) => {
                let previous = match &mut self.entries[i] {
                    Some(entry) => Some(entry.replace(v)),
                    None => None,
                };
                assert(self.slots() =~= store(old(self).slots(), hash, v));
                previous
            },
            Probe::Vacant(i) => {
                self.entries[i] = Some(E::new(k, v));
                self.size = self.size + 1;
                assert(self.slots() =~= store(old(self).slots(), hash, v));
                None
            },
            Probe::Exhausted => None,
        }
    }

    /// Returns the number of occupied slots, which is never more than the
    /// capacity.
    pub fn size(&self) -> (n: usize)
        ensures
            n == self.spec_size(),
            self.wf() ==> n == occupied(self.slots()) && n <= self.spec_capacity(),
    {
        proof {
            lemma_occupied_bound(self.slots());
        }
        self.size
    }

    /// Returns the number of slots, which is fixed when the table is made.
    pub fn capacity(&self) -> (n: usize)
        ensures
            n == self.spec_capacity(),
    {
        self.capacity
    }

    /// Returns the approximate number of bytes that the table takes: those of
    /// its slots. A number that does not fit is reported as `usize::MAX`.
    pub fn size_in_memory(&self) -> (bytes: usize)
        ensures
            bytes == footprint(self.spec_capacity() as nat, size_of::<Option<E>>()),
    {
        let slot: usize = core::mem::size_of::<Option<E>>();
        assert(self.capacity * slot <= usize::MAX * usize::MAX) by (nonlinear_arith)
            requires
                self.capacity <= usize::MAX,
                slot <= usize::MAX,
        ;
        let total: u128 = (self.capacity as u128) * (slot as u128);
        if total > usize::MAX as u128 {
            usize::MAX
        } else {
            total as usize
        }
    }
}

/// The bytes of `capacity` slots of `slot` bytes each, capped at the largest
/// machine word.
pub open spec fn footprint(capacity: nat, slot: nat) -> nat {
    if capacity * slot > usize::MAX {
        usize::MAX as nat
    } else {
        capacity * slot
    }
}

impl<K, V, E> TranspositionTable<K, V, E> for QuadraticProbingTableBase<K, V, E> where
    K: TranspositionHash,
    E: Entry<Key = K, Value = V, RawKey = u64>,
 {
    open spec fn wf(&self) -> bool {
        QuadraticProbingTableBase::wf(self)
    }

    open spec fn view(&self) -> Map<u64, V> {
        contents(self.slots())
    }

    fn get<'a>(&'a self, k: &K) -> (r: Option<&'a V>) where E: 'a {
        QuadraticProbingTableBase::get(self, k)
    }

    fn insert(&mut self, k: K, v: V) -> (r: Option<V>) {
        proof {
            lemma_contents_store(self.slots(), k.spec_hash(), v);
        }
        QuadraticProbingTableBase::insert(self, k, v)
    }
}

impl<K, V, E> AlwaysReplacePolicy for QuadraticProbingTableBase<K, V, E> {
}

impl<K, V, E> QuadraticProbingTableBase<K, V, E> where
    K: TranspositionHash,
    E: Entry<Key = K, Value = V, RawKey = u64>,
 {
    /// The entry in the slot where the probes for `signature` find it.
    pub closed spec fn entry_of(&self, signature: u64) -> E {
        match locate(self.slots(), signature, 0) {
            Probe::Found(i) => self.entries[i as int].unwrap(),
            _ => arbitrary(),
        }
    }

    /// The signatures that the table holds, each with its entry.
    pub open spec fn held(&self) -> Map<u64, E> {
        Map::new(
            |signature: u64| lookup(self.slots(), signature) is Some,
            |signature: u64| self.entry_of(signature),
        )
    }
}

impl<K, V, E> EntryBasedTranspositionTable<E> for QuadraticProbingTableBase<K, V, E> where
    K: TranspositionHash,
    E: Entry<Key = K, Value = V, RawKey = u64>,
 {
    open spec fn sound(&self) -> bool {
        QuadraticProbingTableBase::wf(self)
    }

    open spec fn entries(&self) -> Map<u64, E> {
        self.held()
    }

    fn get_entry(&self, k: &K) -> (r: Option<&E>) {
        let hash = k.hash();
        if hash == 0 {
            return None;
        }
        proof {
            lemma_valid_nonempty(self.slots());
            lemma_locate_sound(self.slots(), hash, 0);
        }
        let (outcome, _) = self.probe(hash);
        match outcome {
            Probe::Found(i) => self.entries[i].as_ref(),
            _ => None,
        }
    }

    fn insert_entry(&mut self, k: K, v: V) -> (r: Option<E>) {
        let hash = k.hash();
        if hash == 0 {
            return None;
        }
        let ghost before = self.slots();
        let ghost after = store(before, hash, v);
        proof {
            lemma_valid_nonempty(before);
            lemma_locate_sound(before, hash, 0);
            lemma_store_valid(before, hash, v);
            lemma_occupied_store(before, hash, v);
            lemma_occupied_bound(after);
            assert forall|other: u64| other != hash implies lookup(after, other) == lookup(
                before,
                other,
            ) && (locate(before, other, 0) is Found ==> locate(after, other, 0) == locate(
                before,
                other,
                0,
            )) by {
                crate::cache::probing::lemma_lookup_store_other(before, hash, v, other);
                lemma_locate_sound(before, other, 0);
                if locate(before, other, 0) is Found {
                    crate::cache::probing::lemma_locate_store_other(before, hash, v, other);
                }
            }
            if fits(before, hash) {
                crate::cache::probing::lemma_lookup_store_same(before, hash, v);
            }
        }
        let (outcome, _) = self.probe(hash);
        match outcome {
            Probe::Found(i) => {
                let mut fresh = Some(E::new(k, v));
                std::mem::swap(&mut self.entries[i], &mut fresh);
                proof {
                    assert(self.slots() =~= after);
                    lemma_locate_sound(after, hash, 0);
                    assert(locate(after, hash, 0) == Probe::Found(i)) by {
                        crate::cache::probing::lemma_locate_replace(before, i as int, v, hash, 0);
                    }
                    assert(self.held().dom() =~= old(self).held().dom().insert(hash));
                    assert forall|other: u64|
                        other != hash && old(self).held().contains_key(other) implies self.held()[other]
                        == #[trigger] old(self).held()[other] by {
                        lemma_locate_sound(before, other, 0);
                    }
                }
                fresh
            },
            Probe::Vacant(i) => {
                self.entries[i] = Some(E::new(k, v));
                self.size = self.size + 1;
                proof {
                    assert(self.slots() =~= after);
                    assert(locate(after, hash, 0) == Probe::Found(i)) by {
                        crate::cache::probing::lemma_locate_fill_finds(before, i as int, hash, v, 0);
                    }
                    assert(self.held().dom() =~= old(self).held().dom().insert(hash));
                    assert forall|other: u64|
                        other != hash && old(self).held().contains_key(other) implies self.held()[other]
                        == #[trigger] old(self).held()[other] by {
                        lemma_locate_sound(before, other, 0);
                    }
                }
                None
            },
            Probe::Exhausted => {
                proof {
                    assert(self.held() =~= old(self).held());
                }
                None
            },
        }
    }
}

/// A table whose entries hold a 64-bit signature and the value.
pub type QuadraticProbingTable64<K, V> = QuadraticProbingTableBase<
    K,
    V,
    crate::cache::traits::Entry64<K, V>,
>;

/// A table over entries of the caller's choice.
pub type QuadraticProbingTable<K, V, E> = QuadraticProbingTableBase<K, V, E>;

} // verus!
