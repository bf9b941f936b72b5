use vstd::prelude::*;
use crate::agents::agent::{best_index, picks_or_fails, worst_index, Agent};
use crate::agents::evaluator::Evaluator;
use crate::agents::minimax::{child_value, lemma_minimax_is_score, MiniMax};
use crate::model::error::{Error, MatchError};
use crate::model::game::Game;
use crate::model::state::GwState;
use crate::model::team::{GwTeam, Polarity};

verus! {

/// What each action of a state is worth by a minimax search of the state to
/// `depth`: the minimax value of the state that it leads to, searched one
/// ply less deep.
pub open spec fn reply_values<G: Game>(
    scoring: spec_fn(G::State, G::Team) -> i32,
    state: G::State,
    depth: nat,
) -> Seq<i32> where G::State: GwState<G> {
    Seq::new(
        state.spec_actions().len(),
        |i: int| child_value::<G>(scoring, state, depth, i) as i32,
    )
}

/// The position of the action that a team of the given polarity prefers by
/// the given values: the earliest of the highest for positive polarity, the
/// earliest of the lowest for negative.
pub open spec fn preferred(polarity: Polarity, values: Seq<i32>) -> int {
    match polarity {
        Polarity::Positive => best_index(values, values.len()),
        Polarity::Negative => worst_index(values, values.len()),
    }
}

/// An agent that chooses by a minimax search with alpha-beta pruning, to a
/// fixed depth and by the scores of an evaluator.
pub struct MiniMaxAgent<G, E> {
    search: MiniMax<G, E>,
}

impl<G, E> MiniMaxAgent<G, E> where G: Game, G::State: GwState<G>, E: Evaluator<G> {
    /// The depth to which the agent searches the state that it is asked
    /// about.
    pub closed spec fn spec_depth(&self) -> u32 {
        self.search.spec_depth()
    }

    /// The scoring of the agent's evaluator.
    pub closed spec fn scoring(&self) -> spec_fn(G::State, G::Team) -> i32 {
        self.search.scoring()
    }

    /// The errors that the agent's evaluator may fail with.
    pub closed spec fn failures(&self) -> Set<Error> {
        self.search.failures()
    }

    /// Creates an agent that searches to the given depth, which must be at
    /// least 1 for the agent to be ready, by the given evaluator.
    pub fn new(depth: u32, evaluator: E) -> (agent: Self)
        ensures
            agent.spec_depth() == depth,
            agent.scoring() == evaluator.scoring(),
            agent.failures() == evaluator.failures(),
    {
        MiniMaxAgent { search: MiniMax::new(depth, evaluator) }
    }

    /// Searches `state` to `depth` plies inside the window between `alpha`
    /// and `beta`, as `MiniMax::minimax` does. Where the evaluator fails, the
    /// search stops there and hands on the evaluator's error as it is.
    pub fn minimax(&mut self, state: &G::State, depth: u32, alpha: i32, beta: i32) -> (r: Result<
        i32,
        Error,
    >)
        ensures
            final(self).scoring() == old(self).scoring(),
            final(self).failures() == old(self).failures(),
            final(self).spec_depth() == old(self).spec_depth(),
            r matches Ok(value) ==> {
                &&& alpha < beta ==> crate::agents::minimax::within_window(
                    value as int,
                    crate::agents::minimax::minimax_value::<G>(
                        old(self).scoring(),
                        *state,
                        depth as nat,
                    ),
                    alpha as int,
                    beta as int,
                )
                &&& depth == 0 || state.spec_is_terminal() ==> value
                    == crate::agents::minimax::minimax_value::<G>(
                    old(self).scoring(),
                    *state,
                    depth as nat,
                )
            },
            r matches Err(error) ==> old(self).failures().contains(error),
    {
        self.search.minimax(state, depth, alpha, beta)
    }
}

impl<G, E> Agent<G> for MiniMaxAgent<G, E> where G: Game, G::State: GwState<G>, E: Evaluator<G> {
    /// The agent is ready if it searches at least one ply deep.
    open spec fn ready(&self) -> bool {
        self.spec_depth() >= 1
    }

    fn identifier() -> (name: String) {
        "unnamed".to_string()
    }

    /// The agent answers with the earliest of the actions whose minimax
    /// value is best for the team to move, or with a failure of its
    /// evaluator.
    open spec fn answers(&self, state: &G::State, answer: Result<G::Action, MatchError<G>>) -> bool {
        picks_or_fails::<G>(
            *state,
            preferred(
                state.spec_team_to_move().spec_polarity(),
                reply_values::<G>(self.scoring(), *state, self.spec_depth() as nat),
            ),
            self.failures(),
            answer,
        )
    }

    /// Chooses the action that is worth most to the team to move: each
    /// action is valued by the minimax value of the state that it leads to;
    /// a team of positive polarity takes the highest value and one of
    /// negative polarity the lowest, and of equal values the earliest. The
    /// first state is searched inside the widest window, the others inside
    /// what the best value so far leaves of it. Fails with
    /// `NoAvailableActions` exactly where the state has no action, and with
    /// `EvaluationFailed` only where the evaluator has failed, with the
    /// evaluator's error.
    fn select_action(&mut self, state: &G::State) -> (r: Result<G::Action, MatchError<G>>)
        ensures
            final(self).scoring() == old(self).scoring(),
            final(self).failures() == old(self).failures(),
            final(self).spec_depth() == old(self).spec_depth(),
            picks_or_fails::<G>(
                *state,
                preferred(
                    state.spec_team_to_move().spec_polarity(),
                    reply_values::<G>(old(self).scoring(), *state, old(self).spec_depth() as nat),
                ),
                old(self).failures(),
                r,
            ),
    {
        let mut actions = state.actions();
        let n = actions.len();
        if n == 0 {
            let held = state.clone();
            proof {
                G::State::lemma_clone_exact(*state, held);
            }
            return Err(MatchError::NoAvailableActions(held));
        }
        let polarity = state.team_to_move().polarity();
        let depth = self.search.depth();
        let ghost scoring = self.search.scoring();
        let ghost values = reply_values::<G>(scoring, *state, depth as nat);
        let first = state.apply_action(&actions[0]);
        let mut best: usize = 0;
        let mut best_value = match self.search.value(&first, depth - 1) {
            Ok(value) => value,
            Err(error) => {
                return Err(MatchError::EvaluationFailed(error));
            },
        };
        proof {
            lemma_minimax_is_score::<G>(scoring, first, (depth - 1) as nat);
        }
        let mut i: usize = 1;
        while i < n
            invariant
                1 <= i <= n,
                n == actions.len(),
                depth >= 1,
                actions@ == state.spec_actions(),
                self.search.scoring() == scoring,
                scoring == old(self).search.scoring(),
                self.search.failures() == old(self).search.failures(),
                self.search.spec_depth() == depth,
                depth == old(self).search.spec_depth(),
                polarity == state.spec_team_to_move().spec_polarity(),
                values == reply_values::<G>(scoring, *state, depth as nat),
                best < i,
                best_value == values[best as int],
                best == (match polarity {
                    Polarity::Positive => best_index(values, i as nat),
                    Polarity::Negative => worst_index(values, i as nat),
                }),
            decreases n - i,
        {
            let child = state.apply_action(&actions[i]);
            proof {
                lemma_minimax_is_score::<G>(scoring, child, (depth - 1) as nat);
            }
            let mut value = best_value;
            let better = match polarity {
                Polarity::Positive => {
                    if best_value < i32::MAX {
                        value = match self.search.minimax(&child, depth - 1, best_value, i32::MAX) {
                            Ok(found) => found,
                            Err(error) => {
                                return Err(MatchError::EvaluationFailed(error));
                            },
                        };
                    }
                    value > best_value
                },
                Polarity::Negative => {
                    if best_value > i32::MIN {
                        value = match self.search.minimax(&child, depth - 1, i32::MIN, best_value) {
                            Ok(found) => found,
                            Err(error) => {
                                return Err(MatchError::EvaluationFailed(error));
                            },
                        };
                    }
                    value < best_value
                },
            };
            if better {
                best = i;
                best_value = value;
            }
            i = i + 1;
        }
        Ok(actions.swap_remove(best))
    }
}

} // verus!
