use vstd::prelude::*;
use crate::model::error::Error;
use crate::model::game::Game;
use crate::model::state::GwState;
use crate::model::team::{maximizer, GwTeam, Polarity};

verus! {

/// Scores positions of a game.
///
/// A score is always given for a team: it is positive where that team has
/// the advantage and negative where its opponent has. An evaluator may keep
/// books while it scores, but the score of a position for a team never
/// changes: it is the function `scoring`. An evaluation may fail, and then
/// with one of the evaluator's `failures`.
///
/// # Symmetry
///
/// An evaluator should score a position for the one team as the negative of
/// what it scores for the other (see `symmetric`). Negamax relies on it.
pub trait Evaluator<G: Game> where G::State: GwState<G> {
    /// The score of each position for each team.
    spec fn scoring(&self) -> spec_fn(G::State, G::Team) -> i32;

    /// The errors that the evaluator may fail with. An evaluator that has
    /// none always gives a score.
    spec fn failures(&self) -> Set<Error>;

    /// Evaluates the state on the absolute scale, on which the maximizing
    /// team seeks high scores and the minimizing team low ones, whoever is to
    /// move: the score for the maximizing team.
    fn evaluate(&mut self, state: &G::State) -> (r: Result<i32, Error>)
        ensures
            r matches Ok(score) ==> score == rating::<G>(old(self).scoring(), *state),
            r matches Err(error) ==> old(self).failures().contains(error),
            final(self).scoring() == old(self).scoring(),
            final(self).failures() == old(self).failures(),
    {
        let mover = state.team_to_move();
        let team = match mover.polarity() {
            Polarity::Positive => mover,
            Polarity::Negative => mover.opponent(),
        };
        self.evaluate_for(state, &team)
    }

    /// Evaluates the state for the given team.
    fn evaluate_for(&mut self, state: &G::State, team: &G::Team) -> (r: Result<i32, Error>)
        ensures
            r matches Ok(score) ==> score == (old(self).scoring())(*state, *team),
            r matches Err(error) ==> old(self).failures().contains(error),
            final(self).scoring() == old(self).scoring(),
            final(self).failures() == old(self).failures(),
    ;

    /// Evaluates, for the given team, the state that the action leads to.
    fn evaluate_action_for(&mut self, state: &G::State, action: &G::Action, team: &G::Team) -> (r:
        Result<i32, Error>)
        requires
            state.spec_actions().contains(*action),
        ensures
            r matches Ok(score) ==> score == (old(self).scoring())(state.spec_apply(*action), *team),
            r matches Err(error) ==> old(self).failures().contains(error),
            final(self).scoring() == old(self).scoring(),
            final(self).failures() == old(self).failures(),
    {
        let next = state.apply_action(action);
        self.evaluate_for(&next, team)
    }
}

/// The score of a position on the absolute scale: its score for the team that
/// maximizes.
pub open spec fn rating<G: Game>(scoring: spec_fn(G::State, G::Team) -> i32, state: G::State) -> int where
    G::State: GwState<G>,
 {
    scoring(state, maximizer(state.spec_team_to_move())) as int
}

/// Whether a scoring gives the one team the negative of what it gives the
/// other, in every position.
pub open spec fn symmetric<G: Game>(scoring: spec_fn(G::State, G::Team) -> i32) -> bool {
    forall|state: G::State, team: G::Team| #[trigger]
        scoring(state, team.spec_opponent()) as int == -(scoring(state, team) as int)
}

} // verus!
