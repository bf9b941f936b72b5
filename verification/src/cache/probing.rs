//! The cache as mathematics: a sequence of slots, the order in which a
//! signature probes them, and what a lookup and an insertion make of them.

use vstd::prelude::*;
use vstd::arithmetic::power2::is_pow2;

verus! {

/// The number of slots that a lookup or an insertion examines at most.
pub const RETRIES: usize = 8;

/// The linear coefficient of the probe sequence.
pub const C1: usize = 1;

/// The quadratic coefficient of the probe sequence.
pub const C2: usize = 2;

/// What a probe for a signature comes to.
#[derive(Debug, Clone, Copy, PartialEq, Eq, Structural)]
pub enum Probe {
    /// The slot at this index holds the signature.
    Found(usize),
    /// The slot at this index is empty, and no slot probed before it holds
    /// the signature.
    Vacant(usize),
    /// All the probed slots hold other signatures.
    Exhausted,
}

/// Whether `n` is one of 1, 2, 4, 8, ...
pub open spec fn is_power_of_two(n: nat) -> bool {
    is_pow2(n as int)
}

/// The index of the slot that `signature` probes at its `attempt`-th try in a
/// table of `capacity` slots:
/// `(origin + C1 * attempt + C2 * attempt^2) & (capacity - 1)`, where
/// `origin` is `signature & (capacity - 1)`.
pub open spec fn probe_index(signature: u64, attempt: nat, capacity: nat) -> usize {
    let mask = (capacity - 1) as u64;
    let origin = signature & mask;
    let sum = (origin + C1 * attempt + C2 * attempt * attempt) as u128;
    (sum & (mask as u128)) as usize
}

/// Follows the probe sequence of `signature` from its `attempt`-th try on,
/// over slots of which each is empty (`None`) or holds a signature and a
/// value.
pub open spec fn locate<V>(slots: Seq<Option<(u64, V)>>, signature: u64, attempt: nat) -> Probe
    decreases RETRIES - attempt,
{
    if attempt >= RETRIES {
        Probe::Exhausted
    } else {
        let i = probe_index(signature, attempt, slots.len());
        match slots[i as int] {
            None => Probe::Vacant(i),
            Some(held) => if held.0 == signature {
                Probe::Found(i)
            } else {
                locate(slots, signature, attempt + 1)
            },
        }
    }
}

/// The number of slots that the probe sequence of `signature` examines from
/// its `attempt`-th try on.
pub open spec fn probes<V>(slots: Seq<Option<(u64, V)>>, signature: u64, attempt: nat) -> nat
    decreases RETRIES - attempt,
{
    if attempt >= RETRIES {
        0
    } else {
        let i = probe_index(signature, attempt, slots.len());
        match slots[i as int] {
            None => 1,
            Some(held) => if held.0 == signature {
                1
            } else {
                1 + probes(slots, signature, attempt + 1)
            },
        }
    }
}

/// What a lookup of `signature` returns. Signature 0 marks an empty slot and
/// is never found.
pub open spec fn lookup<V>(slots: Seq<Option<(u64, V)>>, signature: u64) -> Option<V> {
    if signature == 0 {
        None
    } else {
        match locate(slots, signature, 0) {
            Probe::Found(i) => Some(slots[i as int].unwrap().1),
            _ => None,
        }
    }
}

/// The slots after an insertion of `signature` with `value`: the value is
/// replaced where the signature is found, written to the first empty slot
/// probed where it is not, and dropped where the probes are exhausted.
pub open spec fn store<V>(slots: Seq<Option<(u64, V)>>, signature: u64, value: V) -> Seq<
    Option<(u64, V)>,
> {
    if signature == 0 {
        slots
    } else {
        match locate(slots, signature, 0) {
            Probe::Found(i) => slots.update(i as int, Some((signature, value))),
            Probe::Vacant(i) => slots.update(i as int, Some((signature, value))),
            Probe::Exhausted => slots,
        }
    }
}

/// Whether an insertion of `signature` is kept: the signature is not 0, and
/// its probes find it or an empty slot.
pub open spec fn fits<V>(slots: Seq<Option<(u64, V)>>, signature: u64) -> bool {
    signature != 0 && locate(slots, signature, 0) != Probe::Exhausted
}

/// The number of occupied slots.
pub open spec fn occupied<V>(slots: Seq<Option<(u64, V)>>) -> nat
    decreases slots.len(),
{
    if slots.len() == 0 {
        0
    } else {
        occupied(slots.drop_last()) + if slots.last() is Some {
            1nat
        } else {
            0nat
        }
    }
}

/// The invariant of a table's slots: their number is a power of two, no
/// occupied slot holds signature 0, and every occupied slot is where the
/// probes for its signature find it.
pub open spec fn valid<V>(slots: Seq<Option<(u64, V)>>) -> bool {
    &&& is_power_of_two(slots.len())
    &&& slots.len() <= usize::MAX
    &&& forall|i: int|
        0 <= i < slots.len() && (#[trigger] slots[i]) is Some ==> {
            &&& slots[i].unwrap().0 != 0
            &&& locate(slots, slots[i].unwrap().0, 0) == Probe::Found(i as usize)
        }
}

/// The pairs of signature and value that a table holds.
pub open spec fn contents<V>(slots: Seq<Option<(u64, V)>>) -> Map<u64, V> {
    Map::new(|s: u64| lookup(slots, s) is Some, |s: u64| lookup(slots, s).unwrap())
}

} // verus!

verus! {

/// Tells whether `n` is a power of two.
pub fn power_of_two(n: usize) -> (r: bool)
    ensures
        r == is_power_of_two(n as nat),
{
    let mut m: usize = n;
    proof {
        reveal(is_pow2);
    }
    while m > 1 && m % 2 == 0
        invariant
            is_pow2(m as int) == is_pow2(n as int),
        decreases m,
    {
        proof {
            reveal(is_pow2);
        }
        m = m / 2;
    }
    proof {
        reveal(is_pow2);
    }
    m == 1
}

/// Computes the index of the slot that `signature` probes at its
/// `attempt`-th try under `mask`, the capacity less one.
pub fn probe_slot(signature: u64, attempt: usize, mask: usize) -> (i: usize)
    requires
        attempt < RETRIES,
        mask < usize::MAX,
    ensures
        i == probe_index(signature, attempt as nat, (mask + 1) as nat),
        i <= mask,
{
    let m: u64 = mask as u64;
    let origin: u64 = signature & m;
    assert(attempt * attempt <= 49) by (nonlinear_arith)
        requires
            attempt <= 7,
    ;
    let square: usize = attempt * attempt;
    let step: usize = C1 * attempt + C2 * square;
    let sum: u128 = origin as u128 + step as u128;
    let wide: u128 = m as u128;
    let i: u128 = sum & wide;
    proof {
        assert(sum & wide <= wide) by (bit_vector);
        assert(C2 * attempt * attempt == C2 * square) by (nonlinear_arith)
            requires
                square == attempt * attempt,
        ;
    }
    i as usize
}

} // verus!

verus! {

/// Every probe lands inside the table.
pub proof fn lemma_probe_in_range(signature: u64, attempt: nat, capacity: nat)
    requires
        0 < capacity <= usize::MAX,
    ensures
        probe_index(signature, attempt, capacity) < capacity,
{
    let mask = (capacity - 1) as u64;
    let origin = signature & mask;
    let sum = (origin + C1 * attempt + C2 * attempt * attempt) as u128;
    let wide = mask as u128;
    assert(sum & wide <= wide) by (bit_vector);
}

/// A probe that finds the signature or a vacancy says so of a slot inside the
/// table.
pub proof fn lemma_locate_sound<V>(slots: Seq<Option<(u64, V)>>, signature: u64, attempt: nat)
    requires
        0 < slots.len() <= usize::MAX,
    ensures
        match locate(slots, signature, attempt) {
            Probe::Found(i) => i < slots.len() && slots[i as int] is Some
                && slots[i as int].unwrap().0 == signature,
            Probe::Vacant(i) => i < slots.len() && slots[i as int] is None,
            Probe::Exhausted => true,
        },
    decreases RETRIES - attempt,
{
    if attempt < RETRIES {
        lemma_probe_in_range(signature, attempt, slots.len());
        lemma_locate_sound(slots, signature, attempt + 1);
    }
}

/// A probe examines at most `RETRIES` slots, and exactly that many when it is
/// exhausted.
pub proof fn lemma_probes_bounded<V>(slots: Seq<Option<(u64, V)>>, signature: u64, attempt: nat)
    ensures
        probes(slots, signature, attempt) <= RETRIES - attempt || attempt >= RETRIES,
        attempt >= RETRIES ==> probes(slots, signature, attempt) == 0,
        attempt < RETRIES ==> probes(slots, signature, attempt) >= 1,
    decreases RETRIES - attempt,
{
    if attempt < RETRIES {
        lemma_probes_bounded(slots, signature, attempt + 1);
    }
}

/// Replacing the value of an occupied slot changes no probe.
pub proof fn lemma_locate_replace<V>(
    slots: Seq<Option<(u64, V)>>,
    i: int,
    value: V,
    query: u64,
    attempt: nat,
)
    requires
        0 <= i < slots.len() <= usize::MAX,
        slots[i] is Some,
    ensures
        locate(slots.update(i, Some((slots[i].unwrap().0, value))), query, attempt) == locate(
            slots,
            query,
            attempt,
        ),
    decreases RETRIES - attempt,
{
    if attempt < RETRIES {
        lemma_probe_in_range(query, attempt, slots.len());
        lemma_locate_replace(slots, i, value, query, attempt + 1);
    }
}

/// Filling an empty slot leaves every signature that was found where it was.
pub proof fn lemma_locate_fill_keeps<V>(
    slots: Seq<Option<(u64, V)>>,
    i: int,
    signature: u64,
    value: V,
    query: u64,
    attempt: nat,
)
    requires
        0 <= i < slots.len() <= usize::MAX,
        slots[i] is None,
        locate(slots, query, attempt) is Found,
    ensures
        locate(slots.update(i, Some((signature, value))), query, attempt) == locate(
            slots,
            query,
            attempt,
        ),
    decreases RETRIES - attempt,
{
    if attempt < RETRIES {
        lemma_probe_in_range(query, attempt, slots.len());
        let p = probe_index(query, attempt, slots.len());
        if slots[p as int] is Some && slots[p as int].unwrap().0 != query {
            lemma_locate_fill_keeps(slots, i, signature, value, query, attempt + 1);
        }
    }
}

/// Filling the empty slot that the probes for a signature reach, with that
/// signature, makes the probes find it there.
pub proof fn lemma_locate_fill_finds<V>(
    slots: Seq<Option<(u64, V)>>,
    i: int,
    signature: u64,
    value: V,
    attempt: nat,
)
    requires
        0 <= i < slots.len() <= usize::MAX,
        locate(slots, signature, attempt) == Probe::Vacant(i as usize),
    ensures
        locate(slots.update(i, Some((signature, value))), signature, attempt) == Probe::Found(
            i as usize,
        ),
    decreases RETRIES - attempt,
{
    if attempt < RETRIES {
        lemma_probe_in_range(signature, attempt, slots.len());
        lemma_locate_sound(slots, signature, attempt);
        let p = probe_index(signature, attempt, slots.len());
        if slots[p as int] is Some {
            lemma_locate_fill_finds(slots, i, signature, value, attempt + 1);
        }
    }
}

/// An insertion keeps the slots valid.
pub proof fn lemma_store_valid<V>(slots: Seq<Option<(u64, V)>>, signature: u64, value: V)
    requires
        valid(slots),
    ensures
        valid(store(slots, signature, value)),
{
    let after = store(slots, signature, value);
    lemma_valid_nonempty(slots);
    lemma_locate_sound(slots, signature, 0);
    if signature != 0 {
        match locate(slots, signature, 0) {
            Probe::Found(i) => {
                assert forall|j: int| 0 <= j < after.len() && (#[trigger] after[j]) is Some implies {
                    &&& after[j].unwrap().0 != 0
                    &&& locate(after, after[j].unwrap().0, 0) == Probe::Found(j as usize)
                } by {
                    assert(slots[j] is Some);
                    lemma_locate_replace(slots, i as int, value, after[j].unwrap().0, 0);
                }
            },
            Probe::Vacant(i) => {
                assert forall|j: int| 0 <= j < after.len() && (#[trigger] after[j]) is Some implies {
                    &&& after[j].unwrap().0 != 0
                    &&& locate(after, after[j].unwrap().0, 0) == Probe::Found(j as usize)
                } by {
                    if j == i {
                        lemma_locate_fill_finds(slots, i as int, signature, value, 0);
                    } else {
                        assert(slots[j] is Some);
                        lemma_locate_fill_keeps(
                            slots,
                            i as int,
                            signature,
                            value,
                            slots[j].unwrap().0,
                            0,
                        );
                    }
                }
            },
            Probe::Exhausted => {},
        }
    }
}

/// Valid slots are at least one.
pub proof fn lemma_valid_nonempty<V>(slots: Seq<Option<(u64, V)>>)
    requires
        valid(slots),
    ensures
        0 < slots.len() <= usize::MAX,
{
    reveal(is_pow2);
}

/// What was inserted is found, unless the insertion was dropped.
pub proof fn lemma_lookup_store_same<V>(slots: Seq<Option<(u64, V)>>, signature: u64, value: V)
    requires
        valid(slots),
        fits(slots, signature),
    ensures
        lookup(store(slots, signature, value), signature) == Some(value),
{
    lemma_valid_nonempty(slots);
    lemma_locate_sound(slots, signature, 0);
    match locate(slots, signature, 0) {
        Probe::Found(i) => {
            lemma_locate_replace(slots, i as int, value, signature, 0);
        },
        Probe::Vacant(i) => {
            lemma_locate_fill_finds(slots, i as int, signature, value, 0);
        },
        Probe::Exhausted => {},
    }
}

/// An insertion changes the lookup of no other signature.
pub proof fn lemma_lookup_store_other<V>(
    slots: Seq<Option<(u64, V)>>,
    signature: u64,
    value: V,
    query: u64,
)
    requires
        valid(slots),
        query != signature,
    ensures
        lookup(store(slots, signature, value), query) == lookup(slots, query),
{
    let after = store(slots, signature, value);
    lemma_valid_nonempty(slots);
    lemma_locate_sound(slots, signature, 0);
    lemma_locate_sound(slots, query, 0);
    lemma_locate_sound(after, query, 0);
    if signature != 0 && query != 0 {
        match locate(slots, signature, 0) {
            Probe::Found(i) => {
                lemma_locate_replace(slots, i as int, value, query, 0);
            },
            Probe::Vacant(i) => {
                if locate(slots, query, 0) is Found {
                    lemma_locate_fill_keeps(slots, i as int, signature, value, query, 0);
                } else if let Probe::Found(j) = locate(after, query, 0) {
                    assert(slots[j as int] is Some);
                    assert(slots[j as int].unwrap().0 == query);
                }
            },
            Probe::Exhausted => {},
        }
    }
}

/// An insertion leaves every other signature that was found where it was.
pub proof fn lemma_locate_store_other<V>(
    slots: Seq<Option<(u64, V)>>,
    signature: u64,
    value: V,
    query: u64,
)
    requires
        valid(slots),
        query != signature,
        locate(slots, query, 0) is Found,
    ensures
        locate(store(slots, signature, value), query, 0) == locate(slots, query, 0),
{
    lemma_valid_nonempty(slots);
    lemma_locate_sound(slots, signature, 0);
    if signature != 0 {
        match locate(slots, signature, 0) {
            Probe::Found(i) => {
                lemma_locate_replace(slots, i as int, value, query, 0);
            },
            Probe::Vacant(i) => {
                lemma_locate_fill_keeps(slots, i as int, signature, value, query, 0);
            },
            Probe::Exhausted => {},
        }
    }
}

/// The pairs held after an insertion: those held before, with the inserted
/// pair where the insertion was kept.
pub proof fn lemma_contents_store<V>(slots: Seq<Option<(u64, V)>>, signature: u64, value: V)
    requires
        valid(slots),
    ensures
        contents(store(slots, signature, value)) == if fits(slots, signature) {
            contents(slots).insert(signature, value)
        } else {
            contents(slots)
        },
        !contents(slots).contains_key(0),
{
    let after = store(slots, signature, value);
    if fits(slots, signature) {
        lemma_lookup_store_same(slots, signature, value);
        assert forall|q: u64| q != signature implies lookup(after, q) == lookup(slots, q) by {
            lemma_lookup_store_other(slots, signature, value, q);
        }
        assert(contents(after) =~= contents(slots).insert(signature, value));
    } else {
        assert(after == slots);
    }
}

} // verus!

verus! {

/// There are no more occupied slots than slots.
pub proof fn lemma_occupied_bound<V>(slots: Seq<Option<(u64, V)>>)
    ensures
        occupied(slots) <= slots.len(),
    decreases slots.len(),
{
    if slots.len() > 0 {
        lemma_occupied_bound(slots.drop_last());
    }
}

/// Slots that are all empty count no occupied slot.
pub proof fn lemma_occupied_none<V>(slots: Seq<Option<(u64, V)>>)
    requires
        forall|i: int| 0 <= i < slots.len() ==> (#[trigger] slots[i]) is None,
    ensures
        occupied(slots) == 0,
    decreases slots.len(),
{
    if slots.len() > 0 {
        lemma_occupied_none(slots.drop_last());
    }
}

/// Writing one slot changes the count by what that slot gains or loses.
pub proof fn lemma_occupied_update<V>(slots: Seq<Option<(u64, V)>>, i: int, slot: Option<(u64, V)>)
    requires
        0 <= i < slots.len(),
    ensures
        occupied(slots.update(i, slot)) + (if slots[i] is Some {
            1nat
        } else {
            0nat
        }) == occupied(slots) + (if slot is Some {
            1nat
        } else {
            0nat
        }),
    decreases slots.len(),
{
    if i == slots.len() - 1 {
        assert(slots.update(i, slot).drop_last() =~= slots.drop_last());
    } else {
        assert(slots.update(i, slot).drop_last() =~= slots.drop_last().update(i, slot));
        lemma_occupied_update(slots.drop_last(), i, slot);
    }
}

/// An insertion adds one occupied slot where it fills an empty one, and none
/// otherwise.
pub proof fn lemma_occupied_store<V>(slots: Seq<Option<(u64, V)>>, signature: u64, value: V)
    requires
        0 < slots.len() <= usize::MAX,
    ensures
        occupied(store(slots, signature, value)) == occupied(slots) + (if signature != 0 && locate(
            slots,
            signature,
            0,
        ) is Vacant {
            1nat
        } else {
            0nat
        }),
{
    lemma_locate_sound(slots, signature, 0);
    if signature != 0 {
        match locate(slots, signature, 0) {
            Probe::Found(i) => {
                lemma_occupied_update(slots, i as int, Some((signature, value)));
            },
            Probe::Vacant(i) => {
                lemma_occupied_update(slots, i as int, Some((signature, value)));
            },
            Probe::Exhausted => {},
        }
    }
}

/// Empty slots, a power of two in number, are valid, hold nothing, and have
/// room for every signature but 0.
pub proof fn lemma_empty_slots<V>(slots: Seq<Option<(u64, V)>>)
    requires
        is_power_of_two(slots.len()),
        slots.len() <= usize::MAX,
        forall|i: int| 0 <= i < slots.len() ==> (#[trigger] slots[i]) is None,
    ensures
        valid(slots),
        occupied(slots) == 0,
        contents(slots) == Map::<u64, V>::empty(),
        forall|s: u64| s != 0 ==> fits(slots, s),
{
    lemma_occupied_none(slots);
    assert(0 < slots.len()) by {
        reveal(is_pow2);
    }
    assert forall|s: u64| lookup(slots, s) is None by {
        lemma_probe_in_range(s, 0, slots.len());
    }
    assert(contents(slots) =~= Map::<u64, V>::empty());
    assert forall|s: u64| s != 0 implies fits(slots, s) by {
        lemma_probe_in_range(s, 0, slots.len());
    }
}

} // verus!
