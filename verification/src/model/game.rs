use vstd::prelude::*;
use crate::model::game_result::GwGameResult;
use crate::model::team::GwTeam;

verus! {

/// A game: the types of its states, actions, teams and results, and where
/// play begins.
///
/// The state type carries the rules (see `GwState`).
pub trait Game: Sized {
    /// A position of the game.
    type State;

    /// A move of the game.
    type Action;

    /// A side of the game.
    type Team: GwTeam;

    /// How a finished game ended.
    type GameResult: GwGameResult<Self::Team>;

    /// The position from which play begins.
    spec fn spec_initial_state() -> Self::State;

    /// The team that makes the first move.
    spec fn spec_starting_team() -> Self::Team;

    /// Returns the position from which play begins.
    fn initial_state() -> (s: Self::State)
        ensures
            s == Self::spec_initial_state(),
    ;

    /// Returns the team that makes the first move.
    fn starting_team() -> (t: Self::Team)
        ensures
            t == Self::spec_starting_team(),
    ;
}

} // verus!
