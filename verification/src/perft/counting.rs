use vstd::prelude::*;
use vstd::arithmetic::div_mod::{lemma_add_mod_noop, lemma_small_mod};
use crate::cache::traits::{AlwaysReplacePolicy, Entry64, TranspositionHash, TranspositionTable};
use crate::model::game::Game;
use crate::model::state::GwState;

verus! {

/// The number of nodes that perft counts for a state at the given depth: 1
/// at depth 0 and for a terminal state, the number of actions at depth 1, and
/// otherwise the sum of the counts, one ply less deep, of the states that
/// follow.
pub open spec fn perft_count<G: Game>(state: G::State, depth: nat) -> nat where G::State: GwState<G>
    decreases depth, 1nat, 0nat,
{
    if depth == 0 {
        1
    } else if state.spec_is_terminal() {
        1
    } else if depth == 1 {
        state.spec_actions().len()
    } else {
        perft_sum::<G>(state, depth, state.spec_actions().len())
    }
}

/// The sum of the counts, one ply less deep, of the states that the first
/// `count` actions lead to.
pub open spec fn perft_sum<G: Game>(state: G::State, depth: nat, count: nat) -> nat where
    G::State: GwState<G>,

    decreases depth, 0nat, count,
{
    if count == 0 || depth == 0 {
        0
    } else {
        perft_sum::<G>(state, depth, (count - 1) as nat) + perft_count::<G>(
            state.spec_apply(state.spec_actions()[count - 1]),
            (depth - 1) as nat,
        )
    }
}

/// A count as a 64-bit word holds it: modulo 2^64.
pub open spec fn wrapped(count: nat) -> u64 {
    (count % 0x1_0000_0000_0000_0000) as u64
}

/// Adding two words with wrap-around adds the counts that they hold.
pub proof fn lemma_wrapped_add(a: nat, b: nat)
    ensures
        vstd::wrapping::u64_specs::wrapping_add(wrapped(a), wrapped(b)) == wrapped(a + b),
{
    let m = 0x1_0000_0000_0000_0000int;
    let x = (a % 0x1_0000_0000_0000_0000) as int;
    let y = (b % 0x1_0000_0000_0000_0000) as int;
    lemma_add_mod_noop(a as int, b as int, m);
    if x + y < m {
        lemma_small_mod((x + y) as nat, m as nat);
    } else {
        assert((x + y) % m == x + y - m) by {
            vstd::arithmetic::div_mod::lemma_mod_sub_multiples_vanish(x + y, m);
            lemma_small_mod((x + y - m) as nat, m as nat);
        }
    }
}

/// Counts the nodes of `state` at `depth`: the states reached after `depth`
/// plies, where a game that ends earlier counts as one. The count is exact
/// modulo 2^64.
pub fn perft<G: Game>(state: &G::State, depth: u32) -> (nodes: u64) where G::State: GwState<G>
    ensures
        nodes == wrapped(perft_count::<G>(*state, depth as nat)),
{
    if depth == 0 {
        return 1;
    }
    perft_recursive::<G>(state, depth)
}

/// Counts the nodes of `state` at a depth of at least one ply.
pub fn perft_recursive<G: Game>(state: &G::State, depth: u32) -> (nodes: u64) where
    G::State: GwState<G>,

    requires
        depth > 0,
    ensures
        nodes == wrapped(perft_count::<G>(*state, depth as nat)),
    decreases depth,
{
    if state.is_terminal() {
        return 1;
    } else if depth == 1 {
        return state.count_actions() as u64;
    }
    let actions = state.actions();
    let mut total: u64 = 0;
    let mut i: usize = 0;
    while i < actions.len()
        invariant
            i <= actions.len(),
            actions@ == state.spec_actions(),
            depth >= 2,
            !state.spec_is_terminal(),
            total == wrapped(perft_sum::<G>(*state, depth as nat, i as nat)),
        decreases actions.len() - i,
    {
        let child = state.apply_action(&actions[i]);
        let below = perft_recursive::<G>(&child, depth - 1);
        proof {
            lemma_wrapped_add(
                perft_sum::<G>(*state, depth as nat, i as nat),
                perft_count::<G>(child, (depth - 1) as nat),
            );
        }
        total = total.wrapping_add(below);
        i = i + 1;
    }
    total
}

/// The state that a path leads to from `root`. A path names, ply by ply, the
/// position of the action taken among the actions of the state reached.
pub open spec fn follow<G: Game>(root: G::State, path: Seq<int>) -> G::State where
    G::State: GwState<G>,

    decreases path.len(),
{
    if path.len() == 0 {
        root
    } else {
        let before = follow::<G>(root, path.drop_last());
        before.spec_apply(before.spec_actions()[path.last()])
    }
}

/// Whether a path can be walked from `root`: every state on it but the last
/// is not terminal, and every step names one of its actions.
pub open spec fn walkable<G: Game>(root: G::State, path: Seq<int>) -> bool where
    G::State: GwState<G>,

    decreases path.len(),
{
    if path.len() == 0 {
        true
    } else {
        let before = follow::<G>(root, path.drop_last());
        &&& walkable::<G>(root, path.drop_last())
        &&& !before.spec_is_terminal()
        &&& 0 <= path.last() < before.spec_actions().len()
    }
}

/// The count that a search of `root` to `depth` owes for the state at the end
/// of `path`: its count at the depth that is left there.
pub open spec fn node_count<G: Game>(root: G::State, depth: nat, path: Seq<int>) -> u64 where
    G::State: GwState<G>,
 {
    wrapped(perft_count::<G>(follow::<G>(root, path), (depth - path.len()) as nat))
}

/// The signature of the state at the end of `path`.
pub open spec fn node_signature<G: Game>(root: G::State, path: Seq<int>) -> u64 where
    G::State: GwState<G> + TranspositionHash,
 {
    follow::<G>(root, path).spec_hash()
}

/// Whether signatures tell the counts apart in a search of `root` to `depth`:
/// any two states that the search can reach under one signature owe the same
/// count.
///
/// Two different states of one signature break this, unless they owe the same
/// count by chance. So does one state that is reached at two depths, unless
/// it owes the same count at both.
pub open spec fn faithful<G: Game>(root: G::State, depth: nat) -> bool where
    G::State: GwState<G> + TranspositionHash,
 {
    forall|p: Seq<int>, q: Seq<int>|
        #![trigger node_count::<G>(root, depth, p), node_count::<G>(root, depth, q)]
        walkable::<G>(root, p) && walkable::<G>(root, q) && p.len() <= depth && q.len() <= depth
            && node_signature::<G>(root, p) == node_signature::<G>(root, q) ==> node_count::<G>(
            root,
            depth,
            p,
        ) == node_count::<G>(root, depth, q)
}

/// Whether what a cache holds is right for a search of `root` to `depth`:
/// under the signature of a state that the search can reach, the cache holds
/// nothing or the count that the state owes.
pub open spec fn sound<G: Game>(held: Map<u64, u64>, root: G::State, depth: nat) -> bool where
    G::State: GwState<G> + TranspositionHash,
 {
    forall|p: Seq<int>| #![trigger node_count::<G>(root, depth, p)]
        walkable::<G>(root, p) && p.len() <= depth && held.contains_key(
            node_signature::<G>(root, p),
        ) ==> held[node_signature::<G>(root, p)] == node_count::<G>(root, depth, p)
}

/// An empty cache is right for every search.
pub proof fn lemma_empty_cache_is_sound<G: Game>(root: G::State, depth: nat) where
    G::State: GwState<G> + TranspositionHash,

    ensures
        sound::<G>(Map::<u64, u64>::empty(), root, depth),
{
}

/// Caching never changes the answer: whatever `perft_with_cache` may return
/// for a state and a depth, where signatures are faithful and what the table
/// held was sound, is what `perft` may return for them, whatever the depth to
/// which the table is used.
pub proof fn law_cache_keeps_the_count<G, T>(
    state: G::State,
    depth: u32,
    table: &mut T,
    table_depth: u32,
    plain: u64,
    cached: u64,
) where
    G: Game,
    G::State: GwState<G> + TranspositionHash,
    T: TranspositionTable<G::State, u64, Entry64<G::State, u64>> + AlwaysReplacePolicy,

    requires
        faithful::<G>(state, depth as nat),
        sound::<G>(old(table)@, state, depth as nat),
        call_ensures(perft::<G>, (&state, depth), plain),
        call_ensures(perft_with_cache::<G, T>, (&state, depth, table, table_depth), cached),
    ensures
        cached == plain,
{
}

/// Counts the nodes of `state` at `depth` as `perft` does, and remembers
/// counts in `table`.
///
/// A state that is terminal counts 1, and a state at depth 1 counts its
/// actions, without the table being asked. Otherwise, while `table_depth`
/// is not 0, the table is asked for the state first. A count that it holds is
/// returned as it is; where it holds none, the states that follow are counted
/// one ply less deep with `table_depth` one less, and the sum is inserted
/// under the state before it is returned. Where `table_depth` is 0 the count
/// is made without the table.
///
/// The table never changes the count where signatures are faithful and what
/// the table holds is sound, as it is when the table is empty: the result is
/// then that of `perft`, whatever `table_depth` is. The table loses no
/// signature that it held.
pub fn perft_with_cache<G, T>(state: &G::State, depth: u32, table: &mut T, table_depth: u32) -> (nodes:
    u64) where
    G: Game,
    G::State: GwState<G> + TranspositionHash,
    T: TranspositionTable<G::State, u64, Entry64<G::State, u64>> + AlwaysReplacePolicy,

    requires
        old(table).wf(),
    ensures
        final(table).wf(),
        faithful::<G>(*state, depth as nat) && sound::<G>(old(table)@, *state, depth as nat) ==> {
            &&& nodes == wrapped(perft_count::<G>(*state, depth as nat))
            &&& sound::<G>(final(table)@, *state, depth as nat)
        },
        table_depth == 0 || depth <= 1 || state.spec_is_terminal() ==> final(table)@ == old(table)@,
        forall|signature: u64| #[trigger]
            old(table)@.contains_key(signature) ==> final(table)@.contains_key(signature),
        table_depth > 0 && depth >= 2 && !state.spec_is_terminal() ==> {
            if old(table)@.contains_key(state.spec_hash()) {
                &&& nodes == old(table)@[state.spec_hash()]
                &&& final(table)@ == old(table)@
            } else {
                final(table)@.contains_key(state.spec_hash()) ==> final(table)@[state.spec_hash()]
                    == nodes
            }
        },
{
    perft_cached::<G, T>(
        state,
        depth,
        table,
        table_depth,
        Ghost(*state),
        Ghost(depth as nat),
        Ghost(Seq::<int>::empty()),
    )
}

/// Counts the nodes of a state that a search of `root` to `total` has reached
/// along `path`.
fn perft_cached<G, T>(
    state: &G::State,
    depth: u32,
    table: &mut T,
    table_depth: u32,
    Ghost(root): Ghost<G::State>,
    Ghost(total): Ghost<nat>,
    Ghost(path): Ghost<Seq<int>>,
) -> (nodes: u64) where
    G: Game,
    G::State: GwState<G> + TranspositionHash,
    T: TranspositionTable<G::State, u64, Entry64<G::State, u64>> + AlwaysReplacePolicy,

    requires
        old(table).wf(),
        walkable::<G>(root, path),
        follow::<G>(root, path) == *state,
        path.len() + depth == total,
    ensures
        final(table).wf(),
        faithful::<G>(root, total) && sound::<G>(old(table)@, root, total) ==> {
            &&& nodes == wrapped(perft_count::<G>(*state, depth as nat))
            &&& sound::<G>(final(table)@, root, total)
        },
        table_depth == 0 || depth <= 1 || state.spec_is_terminal() ==> final(table)@ == old(table)@,
        forall|signature: u64| #[trigger]
            old(table)@.contains_key(signature) ==> final(table)@.contains_key(signature),
        table_depth > 0 && depth >= 2 && !state.spec_is_terminal() ==> {
            if old(table)@.contains_key(state.spec_hash()) {
                &&& nodes == old(table)@[state.spec_hash()]
                &&& final(table)@ == old(table)@
            } else {
                final(table)@.contains_key(state.spec_hash()) ==> final(table)@[state.spec_hash()]
                    == nodes
            }
        },
    decreases depth,
{
    if depth == 0 {
        return 1;
    }
    if state.is_terminal() {
        return 1;
    } else if depth == 1 {
        return state.count_actions() as u64;
    }
    if table_depth == 0 {
        return perft_recursive::<G>(state, depth);
    }
    let ghost good = faithful::<G>(root, total) && sound::<G>(old(table)@, root, total);
    proof {
        assert(node_count::<G>(root, total, path) == wrapped(
            perft_count::<G>(*state, depth as nat),
        ));
    }
    if let Some(cached) = table.get(state) {
        return *cached;
    }
    let actions = state.actions();
    let mut sum: u64 = 0;
    let mut i: usize = 0;
    while i < actions.len()
        invariant
            i <= actions.len(),
            actions@ == state.spec_actions(),
            depth >= 2,
            table_depth > 0,
            !state.spec_is_terminal(),
            table.wf(),
            walkable::<G>(root, path),
            follow::<G>(root, path) == *state,
            path.len() + depth == total,
            good == (faithful::<G>(root, total) && sound::<G>(old(table)@, root, total)),
            good ==> sum == wrapped(perft_sum::<G>(*state, depth as nat, i as nat)),
            good ==> sound::<G>(table@, root, total),
            !old(table)@.contains_key(state.spec_hash()),
            forall|signature: u64| #[trigger]
                old(table)@.contains_key(signature) ==> table@.contains_key(signature),
        decreases actions.len() - i,
    {
        let child = state.apply_action(&actions[i]);
        let ghost step = path.push(i as int);
        proof {
            assert(step.drop_last() =~= path);
        }
        let below = perft_cached::<G, T>(
            &child,
            depth - 1,
            table,
            table_depth - 1,
            Ghost(root),
            Ghost(total),
            Ghost(step),
        );
        proof {
            lemma_wrapped_add(
                perft_sum::<G>(*state, depth as nat, i as nat),
                perft_count::<G>(child, (depth - 1) as nat),
            );
        }
        sum = sum.wrapping_add(below);
        i = i + 1;
    }
    let key = state.clone();
    proof {
        G::State::lemma_clone_exact(*state, key);
    }
    let ghost before = table@;
    table.insert(key, sum);
    proof {
        if good {
            assert(sum == node_count::<G>(root, total, path));
            assert forall|p: Seq<int>| #![trigger node_count::<G>(root, total, p)]
                walkable::<G>(root, p) && p.len() <= total && table@.contains_key(
                    node_signature::<G>(root, p),
                ) implies table@[node_signature::<G>(root, p)] == node_count::<G>(
                root,
                total,
                p,
            ) by {
                if node_signature::<G>(root, p) == node_signature::<G>(root, path) {
                    assert(node_count::<G>(root, total, p) == node_count::<G>(root, total, path));
                }
            }
        }
    }
    sum
}

} // verus!
