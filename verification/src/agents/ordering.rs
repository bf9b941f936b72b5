//! Move ordering: the order in which a search visits the actions of a
//! position, most promising first.

use vstd::prelude::*;
use smallvec::SmallVec;
use crate::agents::evaluator::Evaluator;
use crate::model::error::Error;
use crate::model::game::Game;
use crate::model::state::GwState;

verus! {

/// A list of moves with their ranks, kept inline while it is short.
///
/// An item is a pair of a rank and the position of a move among the actions
/// of a state. Items order by rank first and by position second.
#[verifier::external_body]
pub struct Ranking {
    items: SmallVec<[(i64, usize); 8]>,
}

/// The items that a ranking holds, first to last.
pub uninterp spec fn ranking_items(ranking: Ranking) -> Seq<(i64, usize)>;

/// The most moves that are ranked. A longer list of moves is visited in the
/// order in which the moves were generated.
pub const RANK_LIMIT: usize = 0x3ff_ffff;

/// Whether the first item orders before the second or is the second: by
/// rank, and by position where the ranks are equal.
pub open spec fn item_le(a: (i64, usize), b: (i64, usize)) -> bool {
    a.0 < b.0 || (a.0 == b.0 && a.1 <= b.1)
}

/// Whether the items ascend.
pub open spec fn ascending(items: Seq<(i64, usize)>) -> bool {
    forall|i: int, j: int| 0 <= i <= j < items.len() ==> item_le(#[trigger] items[i], #[trigger] items[j])
}

/// Makes an empty ranking with `SmallVec::new`, which holds no item.
#[verifier::external_body]
fn ranking_new() -> (ranking: Ranking)
    ensures
        ranking_items(ranking) == Seq::<(i64, usize)>::empty(),
{
    Ranking { items: SmallVec::new() }
}

/// Appends an item with `SmallVec::push`, which leaves the items before it as
/// they were. `push` fails only where its buffer would outgrow the largest
/// allocation, which a list under `RANK_LIMIT` items cannot.
#[verifier::external_body]
fn ranking_push(ranking: &mut Ranking, item: (i64, usize))
    requires
        ranking_items(*old(ranking)).len() < RANK_LIMIT,
    ensures
        ranking_items(*final(ranking)) == ranking_items(*old(ranking)).push(item),
{
    ranking.items.push(item)
}

/// Reads the number of items with `SmallVec::len`.
#[verifier::external_body]
fn ranking_len(ranking: &Ranking) -> (n: usize)
    ensures
        n == ranking_items(*ranking).len(),
{
    ranking.items.len()
}

/// Reads the item at a position through `SmallVec`'s slice, which fails
/// outside the list.
#[verifier::external_body]
fn ranking_get(ranking: &Ranking, k: usize) -> (item: (i64, usize))
    requires
        k < ranking_items(*ranking).len(),
    ensures
        item == ranking_items(*ranking)[k as int],
{
    ranking.items[k]
}

/// Sorts the items with the slice's `sort`: the same items, in ascending
/// order of rank and, where ranks are equal, of position.
#[verifier::external_body]
fn ranking_sort(ranking: &mut Ranking)
    ensures
        ranking_items(*final(ranking)).to_multiset() == ranking_items(*old(ranking)).to_multiset(),
        ascending(ranking_items(*final(ranking))),
{
    ranking.items.sort()
}

/// The order in which the actions of a position are visited.
pub struct VisitOrder {
    ranking: Ranking,
    ranked: bool,
    count: usize,
}

impl VisitOrder {
    /// The positions of the actions, in the order in which they are visited.
    pub closed spec fn visits(&self) -> Seq<usize> {
        if self.ranked {
            Seq::new(
                ranking_items(self.ranking).len(),
                |k: int| ranking_items(self.ranking)[k].1,
            )
        } else {
            Seq::new(self.count as nat, |k: int| k as usize)
        }
    }

    /// Returns the number of actions to visit.
    pub fn len(&self) -> (n: usize)
        ensures
            n == self.visits().len(),
    {
        if self.ranked {
            ranking_len(&self.ranking)
        } else {
            self.count
        }
    }

    /// Returns the position of the action that is visited `k`-th.
    pub fn at(&self, k: usize) -> (position: usize)
        requires
            k < self.visits().len(),
        ensures
            position == self.visits()[k as int],
    {
        if self.ranked {
            ranking_get(&self.ranking, k).1
        } else {
            k
        }
    }
}

/// Whether `visits` names the position `j`.
pub open spec fn names(visits: Seq<usize>, j: int) -> bool {
    exists|k: int| 0 <= k < visits.len() && #[trigger] visits[k] == j
}

/// Whether `visits` names each of the positions `0`, `1`, .., `n - 1`, and no
/// other.
pub open spec fn is_permutation(visits: Seq<usize>, n: nat) -> bool {
    &&& visits.len() == n
    &&& forall|k: int| 0 <= k < n ==> (#[trigger] visits[k]) < n
    &&& forall|j: int| 0 <= j < n ==> #[trigger] names(visits, j)
}

/// Whether `visits` is the stable order of the positions by descending
/// score: a higher score comes first, and of two equal scores the one that
/// was generated first. Lists over `RANK_LIMIT` are left as generated.
pub open spec fn ranks_by(visits: Seq<usize>, scores: Seq<i32>) -> bool {
    &&& is_permutation(visits, scores.len())
    &&& scores.len() <= RANK_LIMIT ==> forall|a: int, b: int|
        0 <= a < b < scores.len() ==> {
            let first = #[trigger] visits[a] as int;
            let second = #[trigger] visits[b] as int;
            scores[first] > scores[second] || (scores[first] == scores[second] && first < second)
        }
    &&& scores.len() > RANK_LIMIT ==> forall|k: int|
        0 <= k < scores.len() ==> #[trigger] visits[k] == k
}

/// The score, for `team`, of each state that follows `state`.
pub open spec fn action_scores<G: Game>(
    scoring: spec_fn(G::State, G::Team) -> i32,
    state: G::State,
    team: G::Team,
) -> Seq<i32> where G::State: GwState<G> {
    Seq::new(
        state.spec_actions().len(),
        |i: int| scoring(state.spec_apply(state.spec_actions()[i]), team),
    )
}

/// Orders the actions of a state by how the evaluator scores, for `for_team`,
/// the states that they lead to: highest score first, and equal scores in the
/// order in which the actions were generated. Where the evaluator fails, its
/// error is handed on as it is.
pub fn sort_actions<G, E>(
    state: &G::State,
    actions: &Vec<G::Action>,
    evaluator: &mut E,
    for_team: &G::Team,
) -> (r: Result<VisitOrder, Error>) where G: Game, G::State: GwState<G>, E: Evaluator<G>
    requires
        actions@ == state.spec_actions(),
    ensures
        final(evaluator).scoring() == old(evaluator).scoring(),
        final(evaluator).failures() == old(evaluator).failures(),
        r matches Ok(order) ==> ranks_by(
            order.visits(),
            action_scores::<G>(old(evaluator).scoring(), *state, *for_team),
        ),
        r matches Err(error) ==> old(evaluator).failures().contains(error),
{
    let n = actions.len();
    if n > RANK_LIMIT {
        let order = VisitOrder { ranking: ranking_new(), ranked: false, count: n };
        proof {
            assert forall|j: int| 0 <= j < n implies #[trigger] names(order.visits(), j) by {
                assert(order.visits()[j] == j);
            }
        }
        return Ok(order);
    }
    let ghost scores = action_scores::<G>(evaluator.scoring(), *state, *for_team);
    let ghost base = Seq::new(n as nat, |i: int| ((-(scores[i] as int)) as i64, i as usize));
    let mut ranking = ranking_new();
    let mut i: usize = 0;
    while i < n
        invariant
            i <= n <= RANK_LIMIT,
            n == actions.len(),
            actions@ == state.spec_actions(),
            evaluator.scoring() == old(evaluator).scoring(),
            evaluator.failures() == old(evaluator).failures(),
            scores == action_scores::<G>(old(evaluator).scoring(), *state, *for_team),
            base == Seq::new(n as nat, |i: int| ((-(scores[i] as int)) as i64, i as usize)),
            ranking_items(ranking) == base.take(i as int),
        decreases n - i,
    {
        let score = match evaluator.evaluate_action_for(state, &actions[i], for_team) {
            Ok(score) => score,
            Err(error) => {
                return Err(error);
            },
        };
        let rank: i64 = -(score as i64);
        ranking_push(&mut ranking, (rank, i));
        proof {
            assert(base.take(i + 1) =~= base.take(i as int).push(base[i as int]));
        }
        i = i + 1;
    }
    proof {
        assert(base.take(n as int) =~= base);
    }
    ranking_sort(&mut ranking);
    let order = VisitOrder { ranking, ranked: true, count: n };
    proof {
        let items = ranking_items(order.ranking);
        items.to_multiset_ensures();
        base.to_multiset_ensures();
        assert forall|k: int| 0 <= k < items.len() implies {
            &&& (#[trigger] items[k]).1 < n
            &&& items[k] == base[items[k].1 as int]
        } by {
            assert(items.contains(items[k]));
            assert(items.to_multiset().count(items[k]) > 0);
            assert(base.to_multiset().count(items[k]) > 0);
            assert(base.contains(items[k]));
        }
        assert forall|j: int| 0 <= j < n implies #[trigger] names(order.visits(), j) by {
            assert(base.contains(base[j]));
            assert(base.to_multiset().count(base[j]) > 0);
            assert(items.to_multiset().count(base[j]) > 0);
            assert(items.contains(base[j]));
            let k = choose|k: int| 0 <= k < items.len() && items[k] == base[j];
            assert(order.visits()[k] == j);
        }
        assert forall|a: int, b: int| 0 <= a < b < n implies {
            let first = #[trigger] order.visits()[a] as int;
            let second = #[trigger] order.visits()[b] as int;
            scores[first] > scores[second] || (scores[first] == scores[second] && first < second)
        } by {
            assert(item_le(items[a], items[b]));
            lemma_positions_differ(items, base);
        }
    }
    Ok(order)
}

/// A rearrangement of items whose positions all differ names no position
/// twice.
proof fn lemma_positions_differ(items: Seq<(i64, usize)>, base: Seq<(i64, usize)>)
    requires
        items.to_multiset() == base.to_multiset(),
        forall|i: int| 0 <= i < base.len() ==> (#[trigger] base[i]).1 == i,
    ensures
        items.no_duplicates(),
{
    assert(base.no_duplicates()) by {
        assert forall|i: int, j: int|
            0 <= i < base.len() && 0 <= j < base.len() && i != j implies base[i] != base[j] by {
            assert(base[i].1 == i);
            assert(base[j].1 == j);
        }
    }
    base.lemma_multiset_has_no_duplicates();
    items.lemma_multiset_has_no_duplicates_conv();
}

} // verus!
