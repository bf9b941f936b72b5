//! What holds of the cache across several lookups and insertions.

use vstd::prelude::*;
use crate::cache::quadratic_probing::QuadraticProbingTableBase;
use crate::cache::traits::{Entry, TranspositionHash};
use crate::cache::probing::{
    fits, lemma_lookup_store_other, lemma_lookup_store_same, lemma_probes_bounded,
    lemma_store_valid, locate, lookup, probes, store, valid, Probe, RETRIES,
};

verus! {

/// The slots after a run of insertions, made one after another.
pub open spec fn store_all<V>(slots: Seq<Option<(u64, V)>>, writes: Seq<(u64, V)>) -> Seq<
    Option<(u64, V)>,
>
    decreases writes.len(),
{
    if writes.len() == 0 {
        slots
    } else {
        store(store_all(slots, writes.drop_last()), writes.last().0, writes.last().1)
    }
}

/// Whether every insertion of a run is kept: each finds its signature, or an
/// empty slot, in the table as the insertions before it left it.
pub open spec fn all_fit<V>(slots: Seq<Option<(u64, V)>>, writes: Seq<(u64, V)>) -> bool
    decreases writes.len(),
{
    writes.len() == 0 || (all_fit(slots, writes.drop_last()) && fits(
        store_all(slots, writes.drop_last()),
        writes.last().0,
    ))
}

/// The value that a run of insertions wrote last for a signature.
pub open spec fn last_written<V>(writes: Seq<(u64, V)>, signature: u64) -> Option<V>
    decreases writes.len(),
{
    if writes.len() == 0 {
        None
    } else if writes.last().0 == signature {
        Some(writes.last().1)
    } else {
        last_written(writes.drop_last(), signature)
    }
}

/// After a run of insertions that were all kept, every signature that was
/// written is found with the value written last for it, and every other
/// signature is found, or not, as before the run.
pub proof fn law_written_is_retrievable<V>(
    slots: Seq<Option<(u64, V)>>,
    writes: Seq<(u64, V)>,
    signature: u64,
)
    requires
        valid(slots),
        all_fit(slots, writes),
    ensures
        valid(store_all(slots, writes)),
        lookup(store_all(slots, writes), signature) == match last_written(writes, signature) {
            Some(value) => Some(value),
            None => lookup(slots, signature),
        },
    decreases writes.len(),
{
    if writes.len() > 0 {
        let before = store_all(slots, writes.drop_last());
        law_written_is_retrievable(slots, writes.drop_last(), signature);
        lemma_store_valid(before, writes.last().0, writes.last().1);
        if writes.last().0 == signature {
            lemma_lookup_store_same(before, signature, writes.last().1);
        } else {
            lemma_lookup_store_other(before, writes.last().0, writes.last().1, signature);
        }
    }
}

/// A signature that was inserted and kept is found until it is written
/// again, whatever else is inserted, and a second insertion of it replaces
/// the value: the last write wins.
pub proof fn law_last_write_wins<V>(
    slots: Seq<Option<(u64, V)>>,
    signature: u64,
    first: V,
    second: V,
)
    requires
        valid(slots),
        fits(slots, signature),
    ensures
        lookup(store(slots, signature, first), signature) == Some(first),
        fits(store(slots, signature, first), signature),
        lookup(store(store(slots, signature, first), signature, second), signature) == Some(
            second,
        ),
{
    let once = store(slots, signature, first);
    lemma_lookup_store_same(slots, signature, first);
    lemma_store_valid(slots, signature, first);
    lemma_lookup_store_same(once, signature, second);
}

/// An insertion of one signature leaves the lookup of every other signature
/// as it was.
pub proof fn law_insertion_is_local<V>(
    slots: Seq<Option<(u64, V)>>,
    signature: u64,
    value: V,
    other: u64,
)
    requires
        valid(slots),
        other != signature,
    ensures
        lookup(store(slots, signature, value), other) == lookup(slots, other),
{
    lemma_lookup_store_other(slots, signature, value, other);
}

/// No two occupied slots hold the same signature, and no occupied slot holds
/// signature 0.
pub proof fn law_signatures_are_unique<V>(slots: Seq<Option<(u64, V)>>, i: int, j: int)
    requires
        valid(slots),
        0 <= i < slots.len(),
        0 <= j < slots.len(),
        slots[i] is Some,
        slots[j] is Some,
        slots[i].unwrap().0 == slots[j].unwrap().0,
    ensures
        i == j,
        slots[i].unwrap().0 != 0,
{
}

/// Signature 0 is never found: not in any table, and not after it was
/// inserted, which changes nothing.
pub proof fn law_zero_key_excluded<V>(slots: Seq<Option<(u64, V)>>, value: V)
    ensures
        lookup(slots, 0) is None,
        store(slots, 0, value) == slots,
        lookup(store(slots, 0, value), 0) is None,
{
}

/// A lookup and an insertion examine at least one slot and at most
/// `RETRIES`, however full the table is.
pub proof fn law_probes_are_bounded<V>(slots: Seq<Option<(u64, V)>>, signature: u64)
    ensures
        1 <= probes(slots, signature, 0) <= RETRIES,
        locate(slots, signature, 0) == Probe::Exhausted ==> probes(slots, signature, 0)
            == RETRIES,
{
    lemma_probes_bounded(slots, signature, 0);
    lemma_exhausted_probes(slots, signature, 0);
}

/// A probe sequence that is exhausted has examined every slot from its
/// `attempt`-th try to the last.
proof fn lemma_exhausted_probes<V>(slots: Seq<Option<(u64, V)>>, signature: u64, attempt: nat)
    requires
        attempt <= RETRIES,
    ensures
        locate(slots, signature, attempt) == Probe::Exhausted ==> probes(slots, signature, attempt)
            == RETRIES - attempt,
    decreases RETRIES - attempt,
{
    if attempt < RETRIES {
        lemma_exhausted_probes(slots, signature, attempt + 1);
    }
}

/// Two calls of `get` for one key with no insertion between them return the
/// same: whatever `get` may return for a table and a key, it may return
/// nothing else for them.
pub proof fn law_requery_is_idempotent<K, V, E>(
    table: QuadraticProbingTableBase<K, V, E>,
    key: K,
    first: Option<&V>,
    second: Option<&V>,
) where K: TranspositionHash, E: Entry<Key = K, Value = V, RawKey = u64>
    requires
        table.wf(),
        call_ensures(QuadraticProbingTableBase::<K, V, E>::get, (&table, &key), first),
        call_ensures(QuadraticProbingTableBase::<K, V, E>::get, (&table, &key), second),
    ensures
        first == second,
{
}

} // verus!
