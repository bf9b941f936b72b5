use vstd::prelude::*;
use crate::agents::agent::{best_index, picks_or_fails, Agent};
use crate::agents::evaluator::Evaluator;
use crate::agents::minimax::within_window;
use crate::agents::negamax::{
    lemma_negamax_is_score, negamax_value, negate, reply_value, NegaMax,
};
use crate::model::error::{Error, MatchError};
use crate::model::game::Game;
use crate::model::state::GwState;

verus! {

/// What each action of a state is worth, to the team that takes it, by a
/// negamax search of the state to `depth`.
pub open spec fn reply_worths<G: Game>(
    scoring: spec_fn(G::State, G::Team) -> i32,
    state: G::State,
    depth: nat,
) -> Seq<i32> where G::State: GwState<G> {
    Seq::new(
        state.spec_actions().len(),
        |i: int| reply_value::<G>(scoring, state, depth, i) as i32,
    )
}

/// An agent that chooses by a negamax search with alpha-beta pruning, to a
/// fixed depth and by the scores of an evaluator, which should be symmetric.
pub struct NegaMaxAgent<G, E> {
    search: NegaMax<G, E>,
}

impl<G, E> NegaMaxAgent<G, E> where G: Game, G::State: GwState<G>, E: Evaluator<G> {
    /// The depth to which the agent searches the state that it is asked
    /// about.
    pub closed spec fn spec_depth(&self) -> u32 {
        self.search.spec_depth()
    }

    /// The scoring of the agent's evaluator.
    pub closed spec fn scoring(&self) -> spec_fn(G::State, G::Team) -> i32 {
        self.search.leaf_scoring()
    }

    /// The errors that the agent's evaluator may fail with.
    pub closed spec fn failures(&self) -> Set<Error> {
        self.search.leaf_failures()
    }

    /// Creates an agent that searches to the given depth, which must be at
    /// least 1 for the agent to be ready, by the given evaluator.
    pub fn new(depth: u32, evaluator: E) -> (agent: Self)
        ensures
            agent.spec_depth() == depth,
            agent.scoring() == evaluator.scoring(),
            agent.failures() == evaluator.failures(),
    {
        NegaMaxAgent { search: NegaMax::new(depth, evaluator) }
    }

    /// Searches `state` to `depth` plies inside the window between `alpha`
    /// and `beta`, as `NegaMax::negamax` does. Where the evaluator fails, the
    /// search stops there and hands on the evaluator's error as it is.
    pub fn negamax(&mut self, state: &G::State, depth: u32, alpha: i32, beta: i32) -> (r: Result<
        i32,
        Error,
    >)
        ensures
            final(self).scoring() == old(self).scoring(),
            final(self).failures() == old(self).failures(),
            final(self).spec_depth() == old(self).spec_depth(),
            r matches Ok(value) ==> {
                &&& alpha < beta ==> within_window(
                    value as int,
                    negamax_value::<G>(old(self).scoring(), *state, depth as nat),
                    alpha as int,
                    beta as int,
                )
                &&& depth == 0 || state.spec_is_terminal() ==> value == negamax_value::<G>(
                    old(self).scoring(),
                    *state,
                    depth as nat,
                )
            },
            r matches Err(error) ==> old(self).failures().contains(error),
    {
        self.search.negamax(state, depth, alpha, beta)
    }
}

impl<G, E> Agent<G> for NegaMaxAgent<G, E> where G: Game, G::State: GwState<G>, E: Evaluator<G> {
    /// The agent is ready if it searches at least one ply deep.
    open spec fn ready(&self) -> bool {
        self.spec_depth() >= 1
    }

    fn identifier() -> (name: String) {
        "unnamed".to_string()
    }

    /// The agent answers with the earliest of the actions whose negated
    /// negamax value is highest, or with a failure of its evaluator.
    open spec fn answers(&self, state: &G::State, answer: Result<G::Action, MatchError<G>>) -> bool {
        picks_or_fails::<G>(
            *state,
            best_index(
                reply_worths::<G>(self.scoring(), *state, self.spec_depth() as nat),
                state.spec_actions().len(),
            ),
            self.failures(),
            answer,
        )
    }

    /// Chooses the action that is worth most to the team to move: each
    /// action is valued by the negated negamax value of the state that it
    /// leads to; the highest value is taken, and of equal values the
    /// earliest. The first state is searched inside the widest window, the
    /// others inside what the best value so far leaves of it. Fails with
    /// `NoAvailableActions` exactly where the state has no action, and with
    /// `EvaluationFailed` only where the evaluator has failed, with the
    /// evaluator's error.
    fn select_action(&mut self, state: &G::State) -> (r: Result<G::Action, MatchError<G>>)
        ensures
            final(self).scoring() == old(self).scoring(),
            final(self).failures() == old(self).failures(),
            final(self).spec_depth() == old(self).spec_depth(),
            picks_or_fails::<G>(
                *state,
                best_index(
                    reply_worths::<G>(old(self).scoring(), *state, old(self).spec_depth() as nat),
                    state.spec_actions().len(),
                ),
                old(self).failures(),
                r,
            ),
    {
        let mut actions = state.actions();
        let n = actions.len();
        if n == 0 {
            let held = state.clone();
            proof {
                G::State::lemma_clone_exact(*state, held);
            }
            return Err(MatchError::NoAvailableActions(held));
        }
        let depth = self.search.depth();
        let ghost scoring = self.search.leaf_scoring();
        let ghost worths = reply_worths::<G>(scoring, *state, depth as nat);
        let first = state.apply_action(&actions[0]);
        let mut best: usize = 0;
        let first_reply = match self.search.value(&first, depth - 1) {
            Ok(reply) => reply,
            Err(error) => {
                return Err(MatchError::EvaluationFailed(error));
            },
        };
        let mut best_value = negate(first_reply);
        let mut i: usize = 1;
        while i < n
            invariant
                1 <= i <= n,
                n == actions.len(),
                depth >= 1,
                actions@ == state.spec_actions(),
                self.search.leaf_scoring() == scoring,
                scoring == old(self).search.leaf_scoring(),
                self.search.leaf_failures() == old(self).search.leaf_failures(),
                self.search.spec_depth() == depth,
                depth == old(self).search.spec_depth(),
                worths == reply_worths::<G>(scoring, *state, depth as nat),
                best < i,
                best_value == worths[best as int],
                best_value >= -i32::MAX,
                best == best_index(worths, i as nat),
            decreases n - i,
        {
            let child = state.apply_action(&actions[i]);
            proof {
                lemma_negamax_is_score::<G>(scoring, child, (depth - 1) as nat);
            }
            let mut value = best_value;
            if best_value < i32::MAX {
                let reply = match self.search.negamax(&child, depth - 1, -i32::MAX, -best_value) {
                    Ok(reply) => reply,
                    Err(error) => {
                        return Err(MatchError::EvaluationFailed(error));
                    },
                };
                value = negate(reply);
            }
            if value > best_value {
                best = i;
                best_value = value;
            }
            i = i + 1;
        }
        Ok(actions.swap_remove(best))
    }
}

} // verus!
