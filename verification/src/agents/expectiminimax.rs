//! Expectation search: minimax over games in which chance takes turns too.

use vstd::prelude::*;
use std::marker::PhantomData;
use crate::agents::agent::{picks_or_fails, Agent};
use crate::agents::evaluator::{rating, Evaluator};
use crate::agents::minimax_agent::preferred;
use crate::model::error::{Error, MatchError};
use crate::model::game::Game;
use crate::model::state::GwState;
use crate::model::team::{GwTeam, Polarity};

verus! {

/// A state of a game in which chance takes turns: in a random state it is
/// not a team that chooses what follows, but chance.
pub trait ProbabilisticState<G: Game>: GwState<G> {
    /// Whether chance decides what follows this state.
    spec fn spec_is_random(&self) -> bool;

    /// The states that may follow a random state, each with its weight: of
    /// all the times that chance decides, a state follows in as many as its
    /// weight is of the sum of the weights.
    spec fn spec_outcomes(&self) -> Seq<(Self, u32)>;

    /// Returns `true` if chance decides what follows this state.
    fn is_random_state(&self) -> (r: bool)
        ensures
            r == self.spec_is_random(),
    ;

    /// Returns the states that may follow this random state, each with its
    /// weight.
    fn substates(&self) -> (r: Vec<(Self, u32)>)
        requires
            self.spec_is_random(),
        ensures
            r@ == self.spec_outcomes(),
    ;
}

/// The quotient of `sum` by `weight`, rounded towards zero, and 0 where the
/// weight is 0.
pub open spec fn mean(sum: int, weight: int) -> int {
    if weight <= 0 {
        0
    } else if sum >= 0 {
        sum / weight
    } else {
        -((-sum) / weight)
    }
}

/// The value of a state searched to the given depth: the rating of the state
/// where the depth is 0 or the state is terminal; in a random state, the mean
/// of the values of the states that may follow, by their weights; elsewhere
/// the highest value among the states that follow where the team to move
/// maximizes, the lowest where it minimizes.
pub open spec fn expected_value<G: Game>(
    scoring: spec_fn(G::State, G::Team) -> i32,
    state: G::State,
    depth: nat,
) -> int where G::State: ProbabilisticState<G>
    decreases depth, 1nat, 0nat,
{
    if depth == 0 || state.spec_is_terminal() {
        rating::<G>(scoring, state)
    } else if state.spec_is_random() {
        mean(
            weighted_sum::<G>(scoring, state, depth, state.spec_outcomes().len()),
            total_weight::<G>(state, state.spec_outcomes().len()),
        )
    } else {
        expected_fold::<G>(
            scoring,
            state,
            depth,
            state.spec_actions().len(),
            state.spec_team_to_move().spec_polarity(),
        )
    }
}

/// The sum, over the first `count` outcomes of a random state, of the
/// outcome's value times its weight.
pub open spec fn weighted_sum<G: Game>(
    scoring: spec_fn(G::State, G::Team) -> i32,
    state: G::State,
    depth: nat,
    count: nat,
) -> int where G::State: ProbabilisticState<G>
    decreases depth, 0nat, count,
{
    if count == 0 || depth == 0 {
        0
    } else {
        weighted_sum::<G>(scoring, state, depth, (count - 1) as nat) + expected_value::<G>(
            scoring,
            state.spec_outcomes()[count - 1].0,
            (depth - 1) as nat,
        ) * state.spec_outcomes()[count - 1].1
    }
}

/// The sum of the weights of the first `count` outcomes of a random state.
pub open spec fn total_weight<G: Game>(state: G::State, count: nat) -> int where
    G::State: ProbabilisticState<G>,

    decreases count,
{
    if count == 0 {
        0
    } else {
        total_weight::<G>(state, (count - 1) as nat) + state.spec_outcomes()[count - 1].1
    }
}

/// The best value among the states that the first `count` actions of a state
/// lead to: the highest for positive polarity, the lowest for negative.
pub open spec fn expected_fold<G: Game>(
    scoring: spec_fn(G::State, G::Team) -> i32,
    state: G::State,
    depth: nat,
    count: nat,
    polarity: Polarity,
) -> int where G::State: ProbabilisticState<G>
    decreases depth, 0nat, count,
{
    if count == 0 || depth == 0 {
        match polarity {
            Polarity::Positive => i32::MIN as int,
            Polarity::Negative => i32::MAX as int,
        }
    } else {
        let rest = expected_fold::<G>(scoring, state, depth, (count - 1) as nat, polarity);
        let child = expected_value::<G>(
            scoring,
            state.spec_apply(state.spec_actions()[count - 1]),
            (depth - 1) as nat,
        );
        match polarity {
            Polarity::Positive => if child > rest {
                child
            } else {
                rest
            },
            Polarity::Negative => if child < rest {
                child
            } else {
                rest
            },
        }
    }
}

/// A mean of scores is a score.
pub proof fn lemma_mean_is_score(sum: int, weight: int, count: nat)
    requires
        0 <= weight,
        -0x8000_0000 * weight <= sum <= 0x7fff_ffff * weight,
    ensures
        i32::MIN <= mean(sum, weight) <= i32::MAX,
{
    if weight > 0 {
        if sum >= 0 {
            vstd::arithmetic::div_mod::lemma_div_is_ordered(sum, 0x7fff_ffff * weight, weight);
            vstd::arithmetic::div_mod::lemma_div_multiples_vanish(0x7fff_ffff, weight);
            vstd::arithmetic::div_mod::lemma_div_pos_is_pos(sum, weight);
        } else {
            vstd::arithmetic::div_mod::lemma_div_is_ordered(-sum, 0x8000_0000 * weight, weight);
            vstd::arithmetic::div_mod::lemma_div_multiples_vanish(0x8000_0000, weight);
            vstd::arithmetic::div_mod::lemma_div_pos_is_pos(-sum, weight);
        }
    }
}

/// An expected value is a score.
pub proof fn lemma_expected_is_score<G: Game>(
    scoring: spec_fn(G::State, G::Team) -> i32,
    state: G::State,
    depth: nat,
) where G::State: ProbabilisticState<G>
    ensures
        i32::MIN <= expected_value::<G>(scoring, state, depth) <= i32::MAX,
    decreases depth, 1nat, 0nat,
{
    if depth == 0 || state.spec_is_terminal() {
    } else if state.spec_is_random() {
        let n = state.spec_outcomes().len();
        lemma_weighted_sum_bounds::<G>(scoring, state, depth, n);
        lemma_mean_is_score(
            weighted_sum::<G>(scoring, state, depth, n),
            total_weight::<G>(state, n),
            n,
        );
    } else {
        lemma_expected_fold_is_score::<G>(
            scoring,
            state,
            depth,
            state.spec_actions().len(),
            state.spec_team_to_move().spec_polarity(),
        );
    }
}

/// A weighted sum of scores lies between the lowest and the highest score,
/// times the weight.
pub proof fn lemma_weighted_sum_bounds<G: Game>(
    scoring: spec_fn(G::State, G::Team) -> i32,
    state: G::State,
    depth: nat,
    count: nat,
) where G::State: ProbabilisticState<G>
    requires
        depth > 0,
    ensures
        0 <= total_weight::<G>(state, count) <= 0xffff_ffff * count,
        -0x8000_0000 * total_weight::<G>(state, count) <= weighted_sum::<G>(
            scoring,
            state,
            depth,
            count,
        ) <= 0x7fff_ffff * total_weight::<G>(state, count),
    decreases depth, 0nat, count,
{
    if count > 0 {
        lemma_weighted_sum_bounds::<G>(scoring, state, depth, (count - 1) as nat);
        let outcome = state.spec_outcomes()[count - 1];
        lemma_expected_is_score::<G>(scoring, outcome.0, (depth - 1) as nat);
        let value = expected_value::<G>(scoring, outcome.0, (depth - 1) as nat);
        let weight = outcome.1 as int;
        assert(-0x8000_0000 * weight <= value * weight <= 0x7fff_ffff * weight) by (nonlinear_arith)
            requires
                -0x8000_0000 <= value <= 0x7fff_ffff,
                0 <= weight,
        ;
    }
}

/// A fold of scores is a score.
pub proof fn lemma_expected_fold_is_score<G: Game>(
    scoring: spec_fn(G::State, G::Team) -> i32,
    state: G::State,
    depth: nat,
    count: nat,
    polarity: Polarity,
) where G::State: ProbabilisticState<G>
    requires
        depth > 0,
    ensures
        i32::MIN <= expected_fold::<G>(scoring, state, depth, count, polarity) <= i32::MAX,
    decreases depth, 0nat, count,
{
    if count > 0 {
        lemma_expected_fold_is_score::<G>(scoring, state, depth, (count - 1) as nat, polarity);
        lemma_expected_is_score::<G>(
            scoring,
            state.spec_apply(state.spec_actions()[count - 1]),
            (depth - 1) as nat,
        );
    }
}

/// Computes the quotient of `sum` by `weight`, rounded towards zero, and 0
/// where the weight is 0.
pub fn mean_of(sum: i128, weight: i128) -> (r: i128)
    requires
        0 <= weight,
        sum > i128::MIN,
    ensures
        r == mean(sum as int, weight as int),
{
    if weight == 0 {
        0
    } else if sum >= 0 {
        sum / weight
    } else {
        -((-sum) / weight)
    }
}

/// An agent that chooses by an expectation search to a fixed depth, by the
/// scores of an evaluator. Nothing is pruned: under chance, a bound on the
/// value of one outcome is no bound on the mean.
pub struct ExpectiMiniMaxAgent<G, E> {
    depth: u32,
    evaluator: E,
    _game: PhantomData<G>,
}

impl<G, E> ExpectiMiniMaxAgent<G, E> where
    G: Game,
    G::State: ProbabilisticState<G>,
    E: Evaluator<G>,
 {
    /// The depth to which the agent searches the state that it is asked
    /// about.
    pub closed spec fn spec_depth(&self) -> u32 {
        self.depth
    }

    /// The scoring of the agent's evaluator.
    pub closed spec fn scoring(&self) -> spec_fn(G::State, G::Team) -> i32 {
        self.evaluator.scoring()
    }

    /// The errors that the agent's evaluator may fail with.
    pub closed spec fn failures(&self) -> Set<Error> {
        self.evaluator.failures()
    }

    /// Creates an agent that searches to the given depth, which must be at
    /// least 1 for the agent to be ready, by the given evaluator.
    pub fn new(depth: u32, evaluator: E) -> (agent: Self)
        ensures
            agent.spec_depth() == depth,
            agent.scoring() == evaluator.scoring(),
            agent.failures() == evaluator.failures(),
    {
        ExpectiMiniMaxAgent { depth, evaluator, _game: PhantomData }
    }

    /// Searches `state` to `depth` plies, and returns its expected value.
    /// Where the evaluator fails, the search stops there and hands on the
    /// evaluator's error as it is.
    pub fn expectiminimax(&mut self, state: &G::State, depth: u32) -> (r: Result<i32, Error>)
        ensures
            final(self).scoring() == old(self).scoring(),
            final(self).failures() == old(self).failures(),
            final(self).spec_depth() == old(self).spec_depth(),
            r matches Ok(value) ==> value == expected_value::<G>(
                old(self).scoring(),
                *state,
                depth as nat,
            ),
            r matches Err(error) ==> old(self).failures().contains(error),
        decreases depth,
    {
        if depth == 0 || state.is_terminal() {
            return self.evaluator.evaluate(state);
        }
        let ghost scoring = self.evaluator.scoring();
        if state.is_random_state() {
            let outcomes = state.substates();
            let mut sum: i128 = 0;
            let mut weight: i128 = 0;
            let mut i: usize = 0;
            while i < outcomes.len()
                invariant
                    i <= outcomes.len(),
                    depth > 0,
                    outcomes@ == state.spec_outcomes(),
                    self.evaluator.scoring() == scoring,
                    scoring == old(self).evaluator.scoring(),
                    self.evaluator.failures() == old(self).evaluator.failures(),
                    self.depth == old(self).depth,
                    sum == weighted_sum::<G>(scoring, *state, depth as nat, i as nat),
                    weight == total_weight::<G>(*state, i as nat),
                decreases outcomes.len() - i,
            {
                proof {
                    lemma_weighted_sum_bounds::<G>(scoring, *state, depth as nat, i as nat);
                    lemma_weighted_sum_bounds::<G>(scoring, *state, depth as nat, (i + 1) as nat);
                    assert(0xffff_ffff * (i + 1) <= 0xffff_ffff * 0x1_0000_0000_0000_0000)
                        by (nonlinear_arith)
                        requires
                            i + 1 <= 0x1_0000_0000_0000_0000,
                    ;
                    let bound = total_weight::<G>(*state, (i + 1) as nat);
                    assert(0x8000_0000 * bound <= 0x8000_0000 * (0xffff_ffff
                        * 0x1_0000_0000_0000_0000)) by (nonlinear_arith)
                        requires
                            0 <= bound <= 0xffff_ffff * 0x1_0000_0000_0000_0000,
                    ;
                    lemma_expected_is_score::<G>(scoring, outcomes@[i as int].0, (depth - 1) as nat);
                }
                let value = match self.expectiminimax(&outcomes[i].0, depth - 1) {
                    Ok(value) => value,
                    Err(error) => {
                        return Err(error);
                    },
                };
                let share = outcomes[i].1;
                assert(-0x8000_0000 * 0xffff_ffff <= (value as int) * (share as int) <= 0x7fff_ffff
                    * 0xffff_ffff) by (nonlinear_arith)
                    requires
                        -0x8000_0000 <= value <= 0x7fff_ffff,
                        0 <= share <= 0xffff_ffff,
                ;
                sum = sum + (value as i128) * (share as i128);
                weight = weight + share as i128;
                i = i + 1;
            }
            proof {
                lemma_weighted_sum_bounds::<G>(scoring, *state, depth as nat, i as nat);
                lemma_mean_is_score(sum as int, weight as int, i as nat);
            }
            Ok(mean_of(sum, weight) as i32)
        } else {
            let actions = state.actions();
            let polarity = state.team_to_move().polarity();
            let mut value: i32 = match polarity {
                Polarity::Positive => i32::MIN,
                Polarity::Negative => i32::MAX,
            };
            let mut i: usize = 0;
            while i < actions.len()
                invariant
                    i <= actions.len(),
                    depth > 0,
                    !state.spec_is_terminal(),
                    actions@ == state.spec_actions(),
                    self.evaluator.scoring() == scoring,
                    scoring == old(self).evaluator.scoring(),
                    self.evaluator.failures() == old(self).evaluator.failures(),
                    self.depth == old(self).depth,
                    value == expected_fold::<G>(scoring, *state, depth as nat, i as nat, polarity),
                decreases actions.len() - i,
            {
                let child = state.apply_action(&actions[i]);
                let found = match self.expectiminimax(&child, depth - 1) {
                    Ok(found) => found,
                    Err(error) => {
                        return Err(error);
                    },
                };
                match polarity {
                    Polarity::Positive => {
                        if found > value {
                            value = found;
                        }
                    },
                    Polarity::Negative => {
                        if found < value {
                            value = found;
                        }
                    },
                }
                i = i + 1;
            }
            Ok(value)
        }
    }
}

/// What each action of a state is worth by an expectation search of the
/// state to `depth`.
pub open spec fn expected_replies<G: Game>(
    scoring: spec_fn(G::State, G::Team) -> i32,
    state: G::State,
    depth: nat,
) -> Seq<i32> where G::State: ProbabilisticState<G> {
    Seq::new(
        state.spec_actions().len(),
        |i: int|
            expected_value::<G>(
                scoring,
                state.spec_apply(state.spec_actions()[i]),
                (depth - 1) as nat,
            ) as i32,
    )
}

impl<G, E> Agent<G> for ExpectiMiniMaxAgent<G, E> where
    G: Game,
    G::State: ProbabilisticState<G>,
    E: Evaluator<G>,
 {
    /// The agent is ready if it searches at least one ply deep.
    open spec fn ready(&self) -> bool {
        self.spec_depth() >= 1
    }

    fn identifier() -> (name: String) {
        "unnamed".to_string()
    }

    /// The agent answers with the earliest of the actions whose expected
    /// value is best for the team to move, or with a failure of its
    /// evaluator.
    open spec fn answers(&self, state: &G::State, answer: Result<G::Action, MatchError<G>>) -> bool {
        picks_or_fails::<G>(
            *state,
            preferred(
                state.spec_team_to_move().spec_polarity(),
                expected_replies::<G>(self.scoring(), *state, self.spec_depth() as nat),
            ),
            self.failures(),
            answer,
        )
    }

    /// Chooses the action whose state has the best expected value for the
    /// team to move: the highest for a team of positive polarity, the lowest
    /// for one of negative polarity, and of equal values the earliest. Fails
    /// with `NoAvailableActions` exactly where the state has no action, and
    /// with `EvaluationFailed` only where the evaluator has failed, with the
    /// evaluator's error.
    fn select_action(&mut self, state: &G::State) -> (r: Result<G::Action, MatchError<G>>)
        ensures
            final(self).scoring() == old(self).scoring(),
            final(self).failures() == old(self).failures(),
            final(self).spec_depth() == old(self).spec_depth(),
            picks_or_fails::<G>(
                *state,
                preferred(
                    state.spec_team_to_move().spec_polarity(),
                    expected_replies::<G>(
                        old(self).scoring(),
                        *state,
                        old(self).spec_depth() as nat,
                    ),
                ),
                old(self).failures(),
                r,
            ),
    {
        let mut actions = state.actions();
        let n = actions.len();
        if n == 0 {
            let held = state.clone();
            proof {
                G::State::lemma_clone_exact(*state, held);
            }
            return Err(MatchError::NoAvailableActions(held));
        }
        let polarity = state.team_to_move().polarity();
        let depth = self.depth;
        let ghost scoring = self.evaluator.scoring();
        let ghost values = expected_replies::<G>(scoring, *state, depth as nat);
        let first = state.apply_action(&actions[0]);
        proof {
            lemma_expected_is_score::<G>(scoring, first, (depth - 1) as nat);
        }
        let mut best: usize = 0;
        let mut best_value = match self.expectiminimax(&first, depth - 1) {
            Ok(value) => value,
            Err(error) => {
                return Err(MatchError::EvaluationFailed(error));
            },
        };
        let mut i: usize = 1;
        while i < n
            invariant
                1 <= i <= n,
                n == actions.len(),
                depth >= 1,
                actions@ == state.spec_actions(),
                self.evaluator.scoring() == scoring,
                scoring == old(self).evaluator.scoring(),
                self.evaluator.failures() == old(self).evaluator.failures(),
                self.depth == depth,
                depth == old(self).depth,
                polarity == state.spec_team_to_move().spec_polarity(),
                values == expected_replies::<G>(scoring, *state, depth as nat),
                best < i,
                best_value == values[best as int],
                best == (match polarity {
                    Polarity::Positive => crate::agents::agent::best_index(values, i as nat),
                    Polarity::Negative => crate::agents::agent::worst_index(values, i as nat),
                }),
            decreases n - i,
        {
            let child = state.apply_action(&actions[i]);
            proof {
                lemma_expected_is_score::<G>(scoring, child, (depth - 1) as nat);
            }
            let value = match self.expectiminimax(&child, depth - 1) {
                Ok(value) => value,
                Err(error) => {
                    return Err(MatchError::EvaluationFailed(error));
                },
            };
            let better = match polarity {
                Polarity::Positive => value > best_value,
                Polarity::Negative => value < best_value,
            };
            if better {
                best = i;
                best_value = value;
            }
            i = i + 1;
        }
        Ok(actions.swap_remove(best))
    }
}

} // verus!
