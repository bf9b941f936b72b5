//! Negamax: minimax in which every team maximizes its own score.

use vstd::prelude::*;
use std::marker::PhantomData;
use crate::agents::bounds::highest_score;
use crate::agents::evaluator::Evaluator;
use crate::agents::minimax::within_window;
use crate::agents::ordering::{is_permutation, names, sort_actions};
use crate::model::error::Error;
use crate::model::game::Game;
use crate::model::state::GwState;
use crate::model::team::GwTeam;

verus! {

/// The negative of a score. The lowest score has no negative among the
/// scores, and is taken to the highest.
pub open spec fn negated(score: int) -> int {
    if score <= i32::MIN {
        i32::MAX as int
    } else {
        -score
    }
}

/// Negates a score, taking the lowest score to the highest.
pub fn negate(score: i32) -> (r: i32)
    ensures
        r == negated(score as int),
        r >= -i32::MAX,
{
    if score == i32::MIN {
        i32::MAX
    } else {
        -score
    }
}

/// The negamax value of a state searched to the given depth, which is its
/// value for the team to move: the score of the state for that team where
/// the depth is 0 or the state is terminal, and otherwise the highest of the
/// negated values of the states that follow it.
pub open spec fn negamax_value<G: Game>(
    scoring: spec_fn(G::State, G::Team) -> i32,
    state: G::State,
    depth: nat,
) -> int where G::State: GwState<G>
    decreases depth, 1nat, 0nat,
{
    if depth == 0 || state.spec_is_terminal() {
        scoring(state, state.spec_team_to_move()) as int
    } else {
        negamax_fold::<G>(scoring, state, depth, state.spec_actions().len())
    }
}

/// The highest negated negamax value among the states that the first `count`
/// actions of a state lead to, and `-i32::MAX` where there is none.
pub open spec fn negamax_fold<G: Game>(
    scoring: spec_fn(G::State, G::Team) -> i32,
    state: G::State,
    depth: nat,
    count: nat,
) -> int where G::State: GwState<G>
    decreases depth, 0nat, count,
{
    if count == 0 || depth == 0 {
        -(i32::MAX as int)
    } else {
        let rest = negamax_fold::<G>(scoring, state, depth, (count - 1) as nat);
        let child = reply_value::<G>(scoring, state, depth, count - 1);
        if child > rest {
            child
        } else {
            rest
        }
    }
}

/// What the action at `position` is worth to the team that takes it: the
/// negated negamax value of the state that it leads to, searched one ply less
/// deep.
pub open spec fn reply_value<G: Game>(
    scoring: spec_fn(G::State, G::Team) -> i32,
    state: G::State,
    depth: nat,
    position: int,
) -> int where G::State: GwState<G>
    decreases depth, 0nat, 0nat,
    when depth > 0
{
    negated(
        negamax_value::<G>(
            scoring,
            state.spec_apply(state.spec_actions()[position]),
            (depth - 1) as nat,
        ),
    )
}

/// A negamax value is a score, and above the leaves it is not the lowest
/// score.
pub proof fn lemma_negamax_is_score<G: Game>(
    scoring: spec_fn(G::State, G::Team) -> i32,
    state: G::State,
    depth: nat,
) where G::State: GwState<G>
    ensures
        i32::MIN <= negamax_value::<G>(scoring, state, depth) <= i32::MAX,
        !(depth == 0 || state.spec_is_terminal()) ==> -i32::MAX <= negamax_value::<G>(
            scoring,
            state,
            depth,
        ),
    decreases depth, 1nat, 0nat,
{
    if !(depth == 0 || state.spec_is_terminal()) {
        lemma_reply_fold_is_best::<G>(scoring, state, depth, state.spec_actions().len());
    }
}

/// The fold is a score above the lowest, it is at least each of the values
/// that it folds, and it is one of them unless there is none.
pub proof fn lemma_reply_fold_is_best<G: Game>(
    scoring: spec_fn(G::State, G::Team) -> i32,
    state: G::State,
    depth: nat,
    count: nat,
) where G::State: GwState<G>
    requires
        depth > 0,
    ensures
        -i32::MAX <= negamax_fold::<G>(scoring, state, depth, count) <= i32::MAX,
        forall|j: int|
            0 <= j < count ==> #[trigger] reply_value::<G>(scoring, state, depth, j)
                <= negamax_fold::<G>(scoring, state, depth, count),
        count == 0 ==> negamax_fold::<G>(scoring, state, depth, count) == -i32::MAX,
        count == 0 || exists|j: int|
            0 <= j < count && #[trigger] reply_value::<G>(scoring, state, depth, j)
                == negamax_fold::<G>(scoring, state, depth, count),
    decreases depth, 0nat, count,
{
    if count > 0 {
        lemma_reply_fold_is_best::<G>(scoring, state, depth, (count - 1) as nat);
        lemma_negamax_is_score::<G>(
            scoring,
            state.spec_apply(state.spec_actions()[count - 1]),
            (depth - 1) as nat,
        );
        let last = reply_value::<G>(scoring, state, depth, count - 1);
        let rest = negamax_fold::<G>(scoring, state, depth, (count - 1) as nat);
        let all = negamax_fold::<G>(scoring, state, depth, count);
        if all == last {
            assert(reply_value::<G>(scoring, state, depth, count - 1) == all);
        } else {
            assert(all == rest);
            assert(count - 1 > 0);
            let j = choose|j: int|
                0 <= j < count - 1 && #[trigger] reply_value::<G>(scoring, state, depth, j) == rest;
            assert(reply_value::<G>(scoring, state, depth, j) == all);
        }
    }
}

/// What a node knows when it holds `value` after the first `k` visits: below
/// `beta` no visited action is worth more, and above `alpha` some visited
/// action is worth at least as much.
spec fn reply_progress<G: Game>(
    scoring: spec_fn(G::State, G::Team) -> i32,
    state: G::State,
    depth: nat,
    visits: Seq<usize>,
    k: int,
    value: int,
    alpha: int,
    beta: int,
) -> bool where G::State: GwState<G> {
    &&& value < beta ==> forall|m: int|
        0 <= m < k ==> #[trigger] reply_value::<G>(scoring, state, depth, visits[m] as int) <= value
    &&& alpha < value ==> exists|m: int|
        0 <= m < k && #[trigger] reply_value::<G>(scoring, state, depth, visits[m] as int) >= value
}

/// A node that stops, after all its visits or at a cut-off, returns a value
/// that relates to its negamax value as the window says.
proof fn lemma_node_done<G: Game>(
    scoring: spec_fn(G::State, G::Team) -> i32,
    state: G::State,
    depth: nat,
    visits: Seq<usize>,
    k: int,
    value: int,
    alpha: int,
    floor: int,
    beta: int,
) where G::State: GwState<G>
    requires
        depth > 0,
        !state.spec_is_terminal(),
        is_permutation(visits, state.spec_actions().len()),
        0 <= k <= visits.len(),
        alpha < beta,
        floor == (if alpha < -i32::MAX {
            -i32::MAX as int
        } else {
            alpha
        }),
        -i32::MAX <= value,
        k == 0 ==> value == -i32::MAX,
        floor < beta ==> reply_progress::<G>(scoring, state, depth, visits, k, value, floor, beta),
        floor < beta ==> k == visits.len() || value >= beta,
        floor >= beta ==> k == 0,
    ensures
        within_window(value, negamax_value::<G>(scoring, state, depth), alpha, beta),
{
    let n = state.spec_actions().len();
    let exact = negamax_value::<G>(scoring, state, depth);
    lemma_reply_fold_is_best::<G>(scoring, state, depth, n);
    if floor < beta {
        if value < beta {
            assert forall|j: int| 0 <= j < n implies reply_value::<G>(scoring, state, depth, j)
                <= value by {
                assert(names(visits, j));
                let m = choose|m: int| 0 <= m < visits.len() && #[trigger] visits[m] == j;
                assert(reply_value::<G>(scoring, state, depth, visits[m] as int) <= value);
            }
            assert(exact <= value);
        }
        if floor < value {
            let m = choose|m: int|
                0 <= m < k && #[trigger] reply_value::<G>(scoring, state, depth, visits[m] as int)
                    >= value;
            assert(visits[m] < n);
            assert(reply_value::<G>(scoring, state, depth, visits[m] as int) <= exact);
        }
    }
}

/// Searches a position with negamax and alpha-beta pruning, by the scores of
/// an evaluator.
///
/// Negamax takes the value of a state for the team to move to be the
/// negative of its value for the other team. This is so where the evaluator
/// is symmetric and the teams take turns; the search checks neither.
pub struct NegaMax<G, E> {
    depth: u32,
    evaluator: E,
    _game: PhantomData<G>,
}

impl<G, E> NegaMax<G, E> where G: Game, G::State: GwState<G>, E: Evaluator<G> {
    /// The depth to which `evaluate_for` searches.
    pub closed spec fn spec_depth(&self) -> u32 {
        self.depth
    }

    /// The scoring of the evaluator that the search asks.
    pub closed spec fn leaf_scoring(&self) -> spec_fn(G::State, G::Team) -> i32 {
        self.evaluator.scoring()
    }

    /// The errors that the evaluator that the search asks may fail with.
    pub closed spec fn leaf_failures(&self) -> Set<Error> {
        self.evaluator.failures()
    }

    /// Creates a search to the given depth over the given evaluator.
    pub fn new(depth: u32, evaluator: E) -> (search: Self)
        ensures
            search.spec_depth() == depth,
            search.leaf_scoring() == evaluator.scoring(),
            search.leaf_failures() == evaluator.failures(),
    {
        NegaMax { depth, evaluator, _game: PhantomData }
    }

    /// Searches `state` to `depth` plies inside the window between `alpha`
    /// and `beta`, and returns its value for the team to move.
    ///
    /// At depth 0 and in a terminal state the value is the evaluator's score
    /// for the team to move. Otherwise the actions are visited in the order
    /// of `sort_actions` for the team to move; each of the states they lead
    /// to is searched one ply less deep, inside the window between the
    /// negated `beta` and the negated `alpha`, and its value negated; the
    /// maximum is kept and raises `alpha`. After each visit the visits stop
    /// if `alpha >= beta`.
    ///
    /// The returned value is the negamax value where it falls strictly inside
    /// the window, and a bound of it on the side on which it falls outside.
    ///
    /// Where the evaluator fails, the search stops there and hands on the
    /// evaluator's error as it is. A search never fails of its own.
    pub fn negamax(&mut self, state: &G::State, depth: u32, alpha: i32, beta: i32) -> (r: Result<
        i32,
        Error,
    >)
        ensures
            final(self).leaf_scoring() == old(self).leaf_scoring(),
            final(self).leaf_failures() == old(self).leaf_failures(),
            final(self).spec_depth() == old(self).spec_depth(),
            r matches Ok(value) ==> {
                &&& alpha < beta ==> within_window(
                    value as int,
                    negamax_value::<G>(old(self).leaf_scoring(), *state, depth as nat),
                    alpha as int,
                    beta as int,
                )
                &&& depth == 0 || state.spec_is_terminal() ==> value == negamax_value::<G>(
                    old(self).leaf_scoring(),
                    *state,
                    depth as nat,
                )
                &&& !(depth == 0 || state.spec_is_terminal()) ==> value >= -i32::MAX
            },
            r matches Err(error) ==> old(self).leaf_failures().contains(error),
        decreases depth,
    {
        let mover = state.team_to_move();
        if depth == 0 || state.is_terminal() {
            return self.evaluator.evaluate_for(state, &mover);
        }
        let ghost scoring = self.evaluator.scoring();
        let actions = state.actions();
        let order = match sort_actions::<G, E>(state, &actions, &mut self.evaluator, &mover) {
            Ok(order) => order,
            Err(error) => {
                return Err(error);
            },
        };
        let n = order.len();
        let floor: i32 = if alpha < -highest_score() {
            -highest_score()
        } else {
            alpha
        };
        let mut value: i32 = -highest_score();
        let mut low: i32 = floor;
        let mut k: usize = 0;
        while k < n && (low < beta || (k == 0 && alpha >= beta))
            invariant
                k <= n,
                n == order.visits().len(),
                depth > 0,
                !state.spec_is_terminal(),
                actions@ == state.spec_actions(),
                is_permutation(order.visits(), state.spec_actions().len()),
                self.evaluator.scoring() == scoring,
                scoring == old(self).evaluator.scoring(),
                self.evaluator.failures() == old(self).evaluator.failures(),
                self.depth == old(self).depth,
                floor >= -i32::MAX,
                value >= -i32::MAX,
                k == 0 ==> value == -i32::MAX,
                alpha < beta && floor >= beta ==> k == 0,
                low == (if value > floor {
                    value
                } else {
                    floor
                }),
                floor < beta ==> reply_progress::<G>(
                    scoring,
                    *state,
                    depth as nat,
                    order.visits(),
                    k as int,
                    value as int,
                    floor as int,
                    beta as int,
                ),
            decreases n - k,
        {
            let position = order.at(k);
            let child = state.apply_action(&actions[position]);
            let reply = match self.negamax(&child, depth - 1, negate(beta), negate(low)) {
                Ok(reply) => reply,
                Err(error) => {
                    return Err(error);
                },
            };
            let found = negate(reply);
            proof {
                lemma_negamax_is_score::<G>(scoring, child, (depth - 1) as nat);
                assert(reply_value::<G>(scoring, *state, depth as nat, position as int) == negated(
                    negamax_value::<G>(scoring, child, (depth - 1) as nat),
                ));
                if low < beta {
                    assert(within_window(
                        found as int,
                        reply_value::<G>(scoring, *state, depth as nat, position as int),
                        low as int,
                        beta as int,
                    ));
                }
            }
            if found > value {
                value = found;
            }
            if value > low {
                low = value;
            }
            k = k + 1;
            proof {
                assert(reply_value::<G>(scoring, *state, depth as nat, order.visits()[k - 1] as int)
                    == reply_value::<G>(scoring, *state, depth as nat, position as int));
            }
        }
        proof {
            if alpha < beta {
                lemma_node_done::<G>(
                    scoring,
                    *state,
                    depth as nat,
                    order.visits(),
                    k as int,
                    value as int,
                    alpha as int,
                    floor as int,
                    beta as int,
                );
            }
        }
        Ok(value)
    }
}

impl<G, E> NegaMax<G, E> where G: Game, G::State: GwState<G>, E: Evaluator<G> {
    /// Returns the depth to which `evaluate_for` searches.
    pub fn depth(&self) -> (depth: u32)
        ensures
            depth == self.spec_depth(),
    {
        self.depth
    }

    /// Searches `state` to `depth` plies inside the widest window, and
    /// returns its negamax value: the value of the tree without pruning, for
    /// the team to move. Fails only with an error of the evaluator.
    pub fn value(&mut self, state: &G::State, depth: u32) -> (r: Result<i32, Error>)
        ensures
            final(self).leaf_scoring() == old(self).leaf_scoring(),
            final(self).leaf_failures() == old(self).leaf_failures(),
            final(self).spec_depth() == old(self).spec_depth(),
            r matches Ok(value) ==> value == negamax_value::<G>(
                old(self).leaf_scoring(),
                *state,
                depth as nat,
            ),
            r matches Err(error) ==> old(self).leaf_failures().contains(error),
    {
        proof {
            lemma_negamax_is_score::<G>(self.evaluator.scoring(), *state, depth as nat);
        }
        self.negamax(state, depth, -highest_score(), highest_score())
    }
}

/// What a negamax search to `depth` makes a state worth to `team`: the
/// negamax value for the team to move, and its negative for the other.
pub open spec fn searched_score<G: Game>(
    scoring: spec_fn(G::State, G::Team) -> i32,
    state: G::State,
    depth: nat,
    team: G::Team,
) -> i32 where G::State: GwState<G> {
    let value = negamax_value::<G>(scoring, state, depth);
    if team == state.spec_team_to_move() {
        value as i32
    } else {
        negated(value) as i32
    }
}

impl<G, E> Evaluator<G> for NegaMax<G, E> where G: Game, G::State: GwState<G>, E: Evaluator<G> {
    closed spec fn scoring(&self) -> spec_fn(G::State, G::Team) -> i32 {
        |state: G::State, team: G::Team|
            searched_score::<G>(self.evaluator.scoring(), state, self.depth as nat, team)
    }

    /// The search fails as its evaluator does.
    open spec fn failures(&self) -> Set<Error> {
        self.leaf_failures()
    }

    /// Searches `state` to the depth that the search was made with, and
    /// returns its value for `team`.
    fn evaluate_for(&mut self, state: &G::State, team: &G::Team) -> (r: Result<i32, Error>)
        ensures
            r matches Ok(score) ==> score == searched_score::<G>(
                old(self).leaf_scoring(),
                *state,
                old(self).spec_depth() as nat,
                *team,
            ),
            final(self).leaf_scoring() == old(self).leaf_scoring(),
            final(self).spec_depth() == old(self).spec_depth(),
    {
        let mover = state.team_to_move();
        let value = match self.value(state, self.depth) {
            Ok(value) => value,
            Err(error) => {
                proof {
                    assert(final(self).scoring() =~= old(self).scoring());
                }
                return Err(error);
            },
        };
        proof {
            assert(final(self).scoring() =~= old(self).scoring());
            if mover.spec_polarity() == team.spec_polarity() {
                G::Team::lemma_polarity_decides(mover, *team);
            }
        }
        if mover.polarity() == team.polarity() {
            Ok(value)
        } else {
            Ok(negate(value))
        }
    }
}

/// Whether every state that a search of `state` to `depth` looks into is
/// terminal or has an action.
pub open spec fn playable<G: Game>(state: G::State, depth: nat) -> bool where G::State: GwState<G>
    decreases depth, 1nat, 0nat,
{
    if depth == 0 || state.spec_is_terminal() {
        true
    } else {
        &&& state.spec_actions().len() > 0
        &&& replies_playable::<G>(state, depth, state.spec_actions().len())
    }
}

/// Whether the states that the first `count` actions of `state` lead to are
/// playable to one ply less than `depth`.
pub open spec fn replies_playable<G: Game>(state: G::State, depth: nat, count: nat) -> bool where
    G::State: GwState<G>,

    decreases depth, 0nat, count,
{
    if count == 0 || depth == 0 {
        true
    } else {
        &&& replies_playable::<G>(state, depth, (count - 1) as nat)
        &&& playable::<G>(state.spec_apply(state.spec_actions()[count - 1]), (depth - 1) as nat)
    }
}

/// Each of the states that playable replies lead to is playable.
pub proof fn lemma_playable_reply<G: Game>(state: G::State, depth: nat, count: nat, i: int) where
    G::State: GwState<G>,

    requires
        replies_playable::<G>(state, depth, count),
        depth > 0,
        0 <= i < count,
    ensures
        playable::<G>(state.spec_apply(state.spec_actions()[i]), (depth - 1) as nat),
    decreases count,
{
    if i < count - 1 {
        lemma_playable_reply::<G>(state, depth, (count - 1) as nat, i);
    }
}

} // verus!
