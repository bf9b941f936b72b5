//! Minimax with alpha-beta pruning.

use vstd::prelude::*;
use std::marker::PhantomData;
use crate::agents::bounds::{highest_score, lowest_score};
use crate::agents::evaluator::{rating, Evaluator};
use crate::agents::ordering::{is_permutation, names, sort_actions};
use crate::model::error::Error;
use crate::model::game::Game;
use crate::model::state::GwState;
use crate::model::team::{GwTeam, Polarity};

verus! {

/// The minimax value of a state searched to the given depth: the rating of
/// the state where the depth is 0 or the state is terminal, and otherwise
/// the highest value among the states that follow it where the team to move
/// maximizes, the lowest where it minimizes.
pub open spec fn minimax_value<G: Game>(
    scoring: spec_fn(G::State, G::Team) -> i32,
    state: G::State,
    depth: nat,
) -> int where G::State: GwState<G>
    decreases depth, 1nat, 0nat,
{
    if depth == 0 || state.spec_is_terminal() {
        rating::<G>(scoring, state)
    } else {
        minimax_fold::<G>(
            scoring,
            state,
            depth,
            state.spec_actions().len(),
            state.spec_team_to_move().spec_polarity(),
        )
    }
}

/// The best minimax value among the states that the first `count` actions of
/// a state lead to: the highest for positive polarity, the lowest for
/// negative. With no action it is the worst score there is.
pub open spec fn minimax_fold<G: Game>(
    scoring: spec_fn(G::State, G::Team) -> i32,
    state: G::State,
    depth: nat,
    count: nat,
    polarity: Polarity,
) -> int where G::State: GwState<G>
    decreases depth, 0nat, count,
{
    if count == 0 || depth == 0 {
        match polarity {
            Polarity::Positive => i32::MIN as int,
            Polarity::Negative => i32::MAX as int,
        }
    } else {
        let rest = minimax_fold::<G>(scoring, state, depth, (count - 1) as nat, polarity);
        let child = minimax_value::<G>(
            scoring,
            state.spec_apply(state.spec_actions()[count - 1]),
            (depth - 1) as nat,
        );
        match polarity {
            Polarity::Positive => if child > rest {
                child
            } else {
                rest
            },
            Polarity::Negative => if child < rest {
                child
            } else {
                rest
            },
        }
    }
}

/// The minimax value of the state that the action at `position` leads to,
/// searched one ply less deep.
pub open spec fn child_value<G: Game>(
    scoring: spec_fn(G::State, G::Team) -> i32,
    state: G::State,
    depth: nat,
    position: int,
) -> int where G::State: GwState<G> {
    minimax_value::<G>(
        scoring,
        state.spec_apply(state.spec_actions()[position]),
        (depth - 1) as nat,
    )
}

/// How a value returned by a search inside the window between `alpha` and
/// `beta` relates to the exact value: it is the exact value where it lies
/// strictly inside the window, an upper bound of it where it lies at or
/// below `alpha`, and a lower bound of it where it lies at or above `beta`.
pub open spec fn within_window(returned: int, exact: int, alpha: int, beta: int) -> bool {
    &&& returned <= alpha ==> exact <= returned
    &&& returned >= beta ==> exact >= returned
    &&& alpha < returned < beta ==> exact == returned
}

/// A minimax value is a score.
pub proof fn lemma_minimax_is_score<G: Game>(
    scoring: spec_fn(G::State, G::Team) -> i32,
    state: G::State,
    depth: nat,
) where G::State: GwState<G>
    ensures
        i32::MIN <= minimax_value::<G>(scoring, state, depth) <= i32::MAX,
    decreases depth, 1nat, 0nat,
{
    if !(depth == 0 || state.spec_is_terminal()) {
        lemma_fold_is_best::<G>(
            scoring,
            state,
            depth,
            state.spec_actions().len(),
            state.spec_team_to_move().spec_polarity(),
        );
    }
}

/// The fold is a score, it is at least as good as each of the values that it
/// folds, and it is one of them unless there is none.
pub proof fn lemma_fold_is_best<G: Game>(
    scoring: spec_fn(G::State, G::Team) -> i32,
    state: G::State,
    depth: nat,
    count: nat,
    polarity: Polarity,
) where G::State: GwState<G>
    requires
        depth > 0,
    ensures
        i32::MIN <= minimax_fold::<G>(scoring, state, depth, count, polarity) <= i32::MAX,
        forall|j: int|
            0 <= j < count ==> match polarity {
                Polarity::Positive => #[trigger] child_value::<G>(scoring, state, depth, j)
                    <= minimax_fold::<G>(scoring, state, depth, count, polarity),
                Polarity::Negative => child_value::<G>(scoring, state, depth, j) >= minimax_fold::<G>(
                    scoring,
                    state,
                    depth,
                    count,
                    polarity,
                ),
            },
        count == 0 || exists|j: int|
            0 <= j < count && #[trigger] child_value::<G>(scoring, state, depth, j)
                == minimax_fold::<G>(scoring, state, depth, count, polarity),
    decreases depth, 0nat, count,
{
    if count > 0 {
        lemma_fold_is_best::<G>(scoring, state, depth, (count - 1) as nat, polarity);
        lemma_minimax_is_score::<G>(
            scoring,
            state.spec_apply(state.spec_actions()[count - 1]),
            (depth - 1) as nat,
        );
        let last = child_value::<G>(scoring, state, depth, count - 1);
        let rest = minimax_fold::<G>(scoring, state, depth, (count - 1) as nat, polarity);
        let all = minimax_fold::<G>(scoring, state, depth, count, polarity);
        if all == last {
            assert(child_value::<G>(scoring, state, depth, count - 1) == all);
        } else {
            assert(all == rest);
            assert(count - 1 > 0);
            let j = choose|j: int|
                0 <= j < count - 1 && #[trigger] child_value::<G>(scoring, state, depth, j) == rest;
            assert(child_value::<G>(scoring, state, depth, j) == all);
        }
    }
}

/// What a maximizing node knows when it holds `value` after the first `k`
/// visits: below `beta` no visited state is worth more, and above `alpha`
/// some visited state is worth at least as much.
spec fn max_progress<G: Game>(
    scoring: spec_fn(G::State, G::Team) -> i32,
    state: G::State,
    depth: nat,
    visits: Seq<usize>,
    k: int,
    value: int,
    alpha: int,
    beta: int,
) -> bool where G::State: GwState<G> {
    &&& value < beta ==> forall|m: int|
        0 <= m < k ==> #[trigger] child_value::<G>(scoring, state, depth, visits[m] as int) <= value
    &&& alpha < value ==> exists|m: int|
        0 <= m < k && #[trigger] child_value::<G>(scoring, state, depth, visits[m] as int) >= value
}

/// What a minimizing node knows when it holds `value` after the first `k`
/// visits: above `alpha` no visited state is worth less, and below `beta`
/// some visited state is worth at most as much.
spec fn min_progress<G: Game>(
    scoring: spec_fn(G::State, G::Team) -> i32,
    state: G::State,
    depth: nat,
    visits: Seq<usize>,
    k: int,
    value: int,
    alpha: int,
    beta: int,
) -> bool where G::State: GwState<G> {
    &&& value > alpha ==> forall|m: int|
        0 <= m < k ==> #[trigger] child_value::<G>(scoring, state, depth, visits[m] as int) >= value
    &&& value < beta ==> exists|m: int|
        0 <= m < k && #[trigger] child_value::<G>(scoring, state, depth, visits[m] as int) <= value
}

/// A maximizing node that stops, after all its visits or at a cut-off,
/// returns a value that relates to its minimax value as the window says.
proof fn lemma_max_node_done<G: Game>(
    scoring: spec_fn(G::State, G::Team) -> i32,
    state: G::State,
    depth: nat,
    visits: Seq<usize>,
    k: int,
    value: int,
    alpha: int,
    beta: int,
) where G::State: GwState<G>
    requires
        depth > 0,
        !state.spec_is_terminal(),
        state.spec_team_to_move().spec_polarity() == Polarity::Positive,
        is_permutation(visits, state.spec_actions().len()),
        0 <= k <= visits.len(),
        alpha < beta,
        i32::MIN <= value,
        max_progress::<G>(scoring, state, depth, visits, k, value, alpha, beta),
        k == visits.len() || value >= beta,
    ensures
        within_window(value, minimax_value::<G>(scoring, state, depth), alpha, beta),
{
    let n = state.spec_actions().len();
    let exact = minimax_value::<G>(scoring, state, depth);
    lemma_fold_is_best::<G>(scoring, state, depth, n, Polarity::Positive);
    if value < beta {
        assert forall|j: int| 0 <= j < n implies child_value::<G>(scoring, state, depth, j)
            <= value by {
            assert(names(visits, j));
            let m = choose|m: int| 0 <= m < visits.len() && #[trigger] visits[m] == j;
            assert(child_value::<G>(scoring, state, depth, visits[m] as int) <= value);
        }
        assert(exact <= value);
    }
    if alpha < value {
        let m = choose|m: int|
            0 <= m < k && #[trigger] child_value::<G>(scoring, state, depth, visits[m] as int)
                >= value;
        assert(visits[m] < n);
        assert(child_value::<G>(scoring, state, depth, visits[m] as int) <= exact);
    }
}

/// A minimizing node that stops, after all its visits or at a cut-off,
/// returns a value that relates to its minimax value as the window says.
proof fn lemma_min_node_done<G: Game>(
    scoring: spec_fn(G::State, G::Team) -> i32,
    state: G::State,
    depth: nat,
    visits: Seq<usize>,
    k: int,
    value: int,
    alpha: int,
    beta: int,
) where G::State: GwState<G>
    requires
        depth > 0,
        !state.spec_is_terminal(),
        state.spec_team_to_move().spec_polarity() == Polarity::Negative,
        is_permutation(visits, state.spec_actions().len()),
        0 <= k <= visits.len(),
        alpha < beta,
        value <= i32::MAX,
        min_progress::<G>(scoring, state, depth, visits, k, value, alpha, beta),
        k == visits.len() || value <= alpha,
    ensures
        within_window(value, minimax_value::<G>(scoring, state, depth), alpha, beta),
{
    let n = state.spec_actions().len();
    let exact = minimax_value::<G>(scoring, state, depth);
    lemma_fold_is_best::<G>(scoring, state, depth, n, Polarity::Negative);
    if value > alpha {
        assert forall|j: int| 0 <= j < n implies child_value::<G>(scoring, state, depth, j)
            >= value by {
            assert(names(visits, j));
            let m = choose|m: int| 0 <= m < visits.len() && #[trigger] visits[m] == j;
            assert(child_value::<G>(scoring, state, depth, visits[m] as int) >= value);
        }
        assert(exact >= value);
    }
    if value < beta {
        let m = choose|m: int|
            0 <= m < k && #[trigger] child_value::<G>(scoring, state, depth, visits[m] as int)
                <= value;
        assert(visits[m] < n);
        assert(child_value::<G>(scoring, state, depth, visits[m] as int) >= exact);
    }
}

/// Searches a position with minimax and alpha-beta pruning, by the scores of
/// an evaluator.
pub struct MiniMax<G, H> {
    depth: u32,
    heuristic: H,
    /// The number of states at which a search ended and was rated, modulo
    /// 2^64.
    pub states_evaluated: u64,
    _game: PhantomData<G>,
}

impl<G, H> MiniMax<G, H> where G: Game, G::State: GwState<G>, H: Evaluator<G> {
    /// The depth to which `evaluate` searches.
    pub closed spec fn spec_depth(&self) -> u32 {
        self.depth
    }

    /// The scoring of the evaluator that the search asks.
    pub closed spec fn scoring(&self) -> spec_fn(G::State, G::Team) -> i32 {
        self.heuristic.scoring()
    }

    /// The errors that the evaluator may fail with.
    pub closed spec fn failures(&self) -> Set<Error> {
        self.heuristic.failures()
    }

    /// The number of states rated so far, modulo 2^64.
    pub closed spec fn counted(&self) -> u64 {
        self.states_evaluated
    }

    /// Creates a search to the given depth over the given evaluator.
    pub fn new(depth: u32, heuristic: H) -> (search: Self)
        ensures
            search.spec_depth() == depth,
            search.scoring() == heuristic.scoring(),
            search.failures() == heuristic.failures(),
            search.counted() == 0,
    {
        MiniMax { depth, heuristic, states_evaluated: 0, _game: PhantomData }
    }

    /// Searches `state` to `depth` plies inside the window between `alpha`
    /// and `beta`.
    ///
    /// At depth 0 and in a terminal state the value is the evaluator's
    /// rating. Otherwise the actions are visited in the order of
    /// `sort_actions` for the team to move, each of the states they lead to
    /// is searched one ply less deep, and the running best is kept: the
    /// maximum, raising `alpha`, for a team of positive polarity, the
    /// minimum, lowering `beta`, for one of negative polarity. After each
    /// visit the visits stop if `alpha >= beta`.
    ///
    /// Pruning does not change what a window can tell: the returned value is
    /// the minimax value where it falls strictly inside the window, and a
    /// bound of it on the side on which it falls outside.
    ///
    /// Where the evaluator fails, the search stops there and hands on the
    /// evaluator's error as it is. A search never fails of its own.
    pub fn minimax(&mut self, state: &G::State, depth: u32, alpha: i32, beta: i32) -> (r: Result<
        i32,
        Error,
    >)
        ensures
            final(self).scoring() == old(self).scoring(),
            final(self).failures() == old(self).failures(),
            final(self).spec_depth() == old(self).spec_depth(),
            r matches Ok(value) ==> (alpha < beta ==> within_window(
                value as int,
                minimax_value::<G>(old(self).scoring(), *state, depth as nat),
                alpha as int,
                beta as int,
            )),
            r matches Err(error) ==> old(self).failures().contains(error),
            depth == 0 || state.spec_is_terminal() ==> {
                &&& r matches Ok(value) ==> value == minimax_value::<G>(
                    old(self).scoring(),
                    *state,
                    depth as nat,
                )
                &&& final(self).counted() == vstd::wrapping::u64_specs::wrapping_add(
                    old(self).counted(),
                    1,
                )
            },
        decreases depth,
    {
        if depth == 0 || state.is_terminal() {
            self.states_evaluated = self.states_evaluated.wrapping_add(1);
            return self.heuristic.evaluate(state);
        }
        let ghost scoring = self.heuristic.scoring();
        let mover = state.team_to_move();
        let actions = state.actions();
        let order = match sort_actions::<G, H>(state, &actions, &mut self.heuristic, &mover) {
            Ok(order) => order,
            Err(error) => {
                return Err(error);
            },
        };
        let n = order.len();
        let mut k: usize = 0;
        match mover.polarity() {
            Polarity::Positive => {
                let mut value: i32 = lowest_score();
                let mut low: i32 = alpha;
                while k < n && (k == 0 || low < beta)
                    invariant
                        k <= n,
                        n == order.visits().len(),
                        depth > 0,
                        !state.spec_is_terminal(),
                        actions@ == state.spec_actions(),
                        is_permutation(order.visits(), state.spec_actions().len()),
                        self.heuristic.scoring() == scoring,
                        scoring == old(self).heuristic.scoring(),
                        self.heuristic.failures() == old(self).heuristic.failures(),
                        self.depth == old(self).depth,
                        low == (if value > alpha {
                            value
                        } else {
                            alpha
                        }),
                        alpha < beta ==> max_progress::<G>(
                            scoring,
                            *state,
                            depth as nat,
                            order.visits(),
                            k as int,
                            value as int,
                            alpha as int,
                            beta as int,
                        ),
                    decreases n - k,
                {
                    let position = order.at(k);
                    let child = state.apply_action(&actions[position]);
                    let found = match self.minimax(&child, depth - 1, low, beta) {
                        Ok(found) => found,
                        Err(error) => {
                            return Err(error);
                        },
                    };
                    proof {
                        assert(child_value::<G>(scoring, *state, depth as nat, position as int)
                            == minimax_value::<G>(scoring, child, (depth - 1) as nat));
                    }
                    if found > value {
                        value = found;
                    }
                    if value > low {
                        low = value;
                    }
                    k = k + 1;
                    proof {
                        if alpha < beta {
                            assert(child_value::<G>(
                                scoring,
                                *state,
                                depth as nat,
                                order.visits()[k - 1] as int,
                            ) == minimax_value::<G>(scoring, child, (depth - 1) as nat));
                        }
                    }
                }
                proof {
                    if alpha < beta {
                        lemma_max_node_done::<G>(
                            scoring,
                            *state,
                            depth as nat,
                            order.visits(),
                            k as int,
                            value as int,
                            alpha as int,
                            beta as int,
                        );
                    }
                }
                Ok(value)
            },
            Polarity::Negative => {
                let mut value: i32 = highest_score();
                let mut high: i32 = beta;
                while k < n && (k == 0 || alpha < high)
                    invariant
                        k <= n,
                        n == order.visits().len(),
                        depth > 0,
                        !state.spec_is_terminal(),
                        actions@ == state.spec_actions(),
                        is_permutation(order.visits(), state.spec_actions().len()),
                        self.heuristic.scoring() == scoring,
                        scoring == old(self).heuristic.scoring(),
                        self.heuristic.failures() == old(self).heuristic.failures(),
                        self.depth == old(self).depth,
                        high == (if value < beta {
                            value
                        } else {
                            beta
                        }),
                        alpha < beta ==> min_progress::<G>(
                            scoring,
                            *state,
                            depth as nat,
                            order.visits(),
                            k as int,
                            value as int,
                            alpha as int,
                            beta as int,
                        ),
                    decreases n - k,
                {
                    let position = order.at(k);
                    let child = state.apply_action(&actions[position]);
                    let found = match self.minimax(&child, depth - 1, alpha, high) {
                        Ok(found) => found,
                        Err(error) => {
                            return Err(error);
                        },
                    };
                    proof {
                        assert(child_value::<G>(scoring, *state, depth as nat, position as int)
                            == minimax_value::<G>(scoring, child, (depth - 1) as nat));
                    }
                    if found < value {
                        value = found;
                    }
                    if value < high {
                        high = value;
                    }
                    k = k + 1;
                    proof {
                        if alpha < beta {
                            assert(child_value::<G>(
                                scoring,
                                *state,
                                depth as nat,
                                order.visits()[k - 1] as int,
                            ) == minimax_value::<G>(scoring, child, (depth - 1) as nat));
                        }
                    }
                }
                proof {
                    if alpha < beta {
                        lemma_min_node_done::<G>(
                            scoring,
                            *state,
                            depth as nat,
                            order.visits(),
                            k as int,
                            value as int,
                            alpha as int,
                            beta as int,
                        );
                    }
                }
                Ok(value)
            },
        }
    }

    /// Returns the depth to which `evaluate` searches.
    pub fn depth(&self) -> (depth: u32)
        ensures
            depth == self.spec_depth(),
    {
        self.depth
    }

    /// Searches `state` to `depth` plies inside the widest window, and
    /// returns its minimax value: the value of the tree without pruning.
    /// Fails only with an error of the evaluator.
    pub fn value(&mut self, state: &G::State, depth: u32) -> (r: Result<i32, Error>)
        ensures
            final(self).scoring() == old(self).scoring(),
            final(self).failures() == old(self).failures(),
            final(self).spec_depth() == old(self).spec_depth(),
            r matches Ok(value) ==> value == minimax_value::<G>(
                old(self).scoring(),
                *state,
                depth as nat,
            ),
            r matches Err(error) ==> old(self).failures().contains(error),
    {
        proof {
            lemma_minimax_is_score::<G>(self.scoring(), *state, depth as nat);
        }
        self.minimax(state, depth, lowest_score(), highest_score())
    }

    /// Searches `state` to the depth that the search was made with, and
    /// returns its minimax value. Fails only with an error of the evaluator.
    pub fn evaluate(&mut self, state: &G::State) -> (r: Result<i32, Error>)
        ensures
            final(self).scoring() == old(self).scoring(),
            final(self).failures() == old(self).failures(),
            final(self).spec_depth() == old(self).spec_depth(),
            r matches Ok(value) ==> value == minimax_value::<G>(
                old(self).scoring(),
                *state,
                old(self).spec_depth() as nat,
            ),
            r matches Err(error) ==> old(self).failures().contains(error),
    {
        self.value(state, self.depth)
    }
}

} // verus!
