use vstd::prelude::*;
use std::marker::PhantomData;
use crate::agents::evaluator::Evaluator;
use crate::agents::ordering::action_scores;
use crate::model::error::{Error, MatchError};
use crate::model::game::Game;
use crate::model::state::GwState;

verus! {

/// Chooses the action to take in a position.
pub trait Agent<G: Game> where G::State: GwState<G> {
    /// Whether the agent is fit to be asked. What makes an agent fit is for
    /// the agent to say; an agent stays fit as it is asked.
    spec fn ready(&self) -> bool;

    /// Whether the agent, as it stands, may give `answer` when it is asked in
    /// `state`. What an agent answers is for the agent to say, and does not
    /// change as the agent is asked.
    spec fn answers(&self, state: &G::State, answer: Result<G::Action, MatchError<G>>) -> bool;

    /// The name by which agents of this kind are known: "unnamed", unless
    /// the agent says otherwise.
    open spec fn spec_identifier() -> Seq<char> {
        "unnamed"@
    }

    /// Returns the name by which agents of this kind are known.
    fn identifier() -> (name: String)
        ensures
            name@ == Self::spec_identifier(),
    ;

    /// Chooses one of the actions of `state`.
    fn select_action(&mut self, state: &G::State) -> (r: Result<G::Action, MatchError<G>>)
        requires
            old(self).ready(),
        ensures
            final(self).ready(),
            old(self).answers(state, r),
            r matches Ok(action) ==> state.spec_actions().contains(action),
            forall|other: G::State, answer: Result<G::Action, MatchError<G>>| #[trigger]
                final(self).answers(&other, answer) == old(self).answers(&other, answer),
    ;
}

/// The answer of an agent that takes the action at `index` among the actions
/// of `state`, and fails with `NoAvailableActions` where the state has none.
pub open spec fn picks<G: Game>(
    state: G::State,
    index: int,
    answer: Result<G::Action, MatchError<G>>,
) -> bool where G::State: GwState<G> {
    if state.spec_actions().len() == 0 {
        answer == Err::<G::Action, MatchError<G>>(MatchError::NoAvailableActions(state))
    } else {
        answer == Ok::<G::Action, MatchError<G>>(state.spec_actions()[index])
    }
}

/// The answer of an agent that asks an evaluator about the actions of
/// `state` and then takes the action at `index`: it fails with
/// `NoAvailableActions` where the state has no action, it may fail with
/// `EvaluationFailed` and one of the evaluator's `failures`, as it is, where
/// the state has an action, and else it gives that action.
pub open spec fn picks_or_fails<G: Game>(
    state: G::State,
    index: int,
    failures: Set<Error>,
    answer: Result<G::Action, MatchError<G>>,
) -> bool where G::State: GwState<G> {
    match answer {
        Err(MatchError::EvaluationFailed(error)) => state.spec_actions().len() > 0
            && failures.contains(error),
        _ => picks::<G>(state, index, answer),
    }
}

/// The position of the highest of the first `count` scores, and of the
/// earliest of them where several are highest.
pub open spec fn best_index(scores: Seq<i32>, count: nat) -> int
    decreases count,
{
    if count <= 1 {
        0
    } else {
        let before = best_index(scores, (count - 1) as nat);
        if scores[count - 1] > scores[before] {
            count - 1
        } else {
            before
        }
    }
}

/// The position of the lowest of the first `count` scores, and of the
/// earliest of them where several are lowest.
pub open spec fn worst_index(scores: Seq<i32>, count: nat) -> int
    decreases count,
{
    if count <= 1 {
        0
    } else {
        let before = worst_index(scores, (count - 1) as nat);
        if scores[count - 1] < scores[before] {
            count - 1
        } else {
            before
        }
    }
}

/// The best position lies among the scores, no score is higher than the one
/// at it, and no score before it is as high.
pub proof fn lemma_best_index(scores: Seq<i32>, count: nat)
    requires
        0 < count <= scores.len(),
    ensures
        0 <= best_index(scores, count) < count,
        forall|i: int| 0 <= i < count ==> (#[trigger] scores[i]) <= scores[best_index(scores, count)],
        forall|i: int|
            0 <= i < best_index(scores, count) ==> (#[trigger] scores[i]) < scores[best_index(
                scores,
                count,
            )],
    decreases count,
{
    if count > 1 {
        lemma_best_index(scores, (count - 1) as nat);
    }
}

/// The worst position lies among the scores, no score is lower than the one
/// at it, and no score before it is as low.
pub proof fn lemma_worst_index(scores: Seq<i32>, count: nat)
    requires
        0 < count <= scores.len(),
    ensures
        0 <= worst_index(scores, count) < count,
        forall|i: int| 0 <= i < count ==> (#[trigger] scores[i]) >= scores[worst_index(scores, count)],
        forall|i: int|
            0 <= i < worst_index(scores, count) ==> (#[trigger] scores[i]) > scores[worst_index(
                scores,
                count,
            )],
    decreases count,
{
    if count > 1 {
        lemma_worst_index(scores, (count - 1) as nat);
    }
}

/// An agent which selects the best action for the team to move according to
/// an evaluator: the action that leads to the state that the evaluator scores
/// highest for that team, and the earliest such action where there are
/// several.
pub struct MaximisingAgent<G: Game, E> {
    evaluator: E,
    _marker: PhantomData<G>,
}

impl<G: Game, E: Evaluator<G>> MaximisingAgent<G, E> where G::State: GwState<G> {
    /// The scoring of the agent's evaluator.
    pub closed spec fn scoring(&self) -> spec_fn(G::State, G::Team) -> i32 {
        self.evaluator.scoring()
    }

    /// The errors that the agent's evaluator may fail with.
    pub closed spec fn failures(&self) -> Set<Error> {
        self.evaluator.failures()
    }

    /// Creates an agent that chooses by the given evaluator.
    pub fn new(evaluator: E) -> (agent: Self)
        ensures
            agent.scoring() == evaluator.scoring(),
            agent.failures() == evaluator.failures(),
    {
        MaximisingAgent { evaluator, _marker: PhantomData }
    }

    /// Returns the agent's evaluator.
    pub fn evaluator(&self) -> (e: &E)
        ensures
            e.scoring() == self.scoring(),
            e.failures() == self.failures(),
    {
        &self.evaluator
    }

    /// Returns the agent's evaluator, to be changed. The agent then chooses
    /// by the evaluator as it was changed.
    pub fn evaluator_mut(&mut self) -> (e: &mut E)
        ensures
            e.scoring() == old(self).scoring(),
            e.failures() == old(self).failures(),
            final(self).scoring() == final(e).scoring(),
            final(self).failures() == final(e).failures(),
    {
        &mut self.evaluator
    }
}

impl<G: Game, E: Evaluator<G>> Agent<G> for MaximisingAgent<G, E> where G::State: GwState<G> {
    open spec fn ready(&self) -> bool {
        true
    }

    fn identifier() -> (name: String) {
        "unnamed".to_string()
    }

    /// The agent answers with the earliest of the actions that score
    /// highest, or with a failure of its evaluator.
    open spec fn answers(&self, state: &G::State, answer: Result<G::Action, MatchError<G>>) -> bool {
        picks_or_fails::<G>(
            *state,
            best_index(
                action_scores::<G>(self.scoring(), *state, state.spec_team_to_move()),
                state.spec_actions().len(),
            ),
            self.failures(),
            answer,
        )
    }

    /// Chooses the action whose state the evaluator scores highest for the
    /// team to move. Fails with `NoAvailableActions` exactly where the state
    /// has no action, and with `EvaluationFailed` only where the evaluator
    /// has failed, with the evaluator's error.
    fn select_action(&mut self, state: &G::State) -> (r: Result<G::Action, MatchError<G>>)
        ensures
            final(self).scoring() == old(self).scoring(),
            final(self).failures() == old(self).failures(),
            picks_or_fails::<G>(
                *state,
                best_index(
                    action_scores::<G>(old(self).scoring(), *state, state.spec_team_to_move()),
                    state.spec_actions().len(),
                ),
                old(self).failures(),
                r,
            ),
    {
        let mut actions = state.actions();
        let n = actions.len();
        if n == 0 {
            let held = state.clone();
            proof {
                G::State::lemma_clone_exact(*state, held);
            }
            return Err(MatchError::NoAvailableActions(held));
        }
        let mover = state.team_to_move();
        let ghost scores = action_scores::<G>(self.evaluator.scoring(), *state, mover);
        let mut best: usize = 0;
        let mut best_score = match self.evaluator.evaluate_action_for(state, &actions[0], &mover) {
            Ok(score) => score,
            Err(error) => {
                return Err(MatchError::EvaluationFailed(error));
            },
        };
        let mut i: usize = 1;
        while i < n
            invariant
                1 <= i <= n,
                n == actions.len(),
                actions@ == state.spec_actions(),
                mover == state.spec_team_to_move(),
                self.evaluator.scoring() == old(self).evaluator.scoring(),
                self.evaluator.failures() == old(self).evaluator.failures(),
                scores == action_scores::<G>(old(self).evaluator.scoring(), *state, mover),
                best == best_index(scores, i as nat),
                best < i,
                best_score == scores[best as int],
            decreases n - i,
        {
            let score = match self.evaluator.evaluate_action_for(state, &actions[i], &mover) {
                Ok(score) => score,
                Err(error) => {
                    return Err(MatchError::EvaluationFailed(error));
                },
            };
            if score > best_score {
                best = i;
                best_score = score;
            }
            i = i + 1;
        }
        let chosen = actions.swap_remove(best);
        proof {
            assert(state.spec_actions().contains(chosen));
        }
        Ok(chosen)
    }
}

} // verus!
