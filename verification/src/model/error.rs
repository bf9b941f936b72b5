use vstd::prelude::*;
use crate::model::game::Game;

verus! {

/// Why a match between two agents stopped before the game was over.
pub enum MatchError<G: Game> {
    /// The position offers no action to choose from.
    NoAvailableActions(G::State),
    /// An agent chose an action that the position does not offer.
    IllegalAction { action: G::Action, state: G::State },
    /// An agent took longer than it was allowed to, in nanoseconds.
    TimeLimitExceeded { limit: u128, time: u128 },
    /// The evaluator that an agent asked has failed, with this error.
    EvaluationFailed(Error),
}

/// Why a player could not be built.
#[derive(Debug, Clone, Copy, PartialEq, Eq)]
pub enum BuilderError {
    MissingAttribute(&'static str),
}

/// Why an agent could not recommend an action.
#[derive(Debug, Clone, Copy, PartialEq, Eq)]
pub enum Error {
    Timeout,
    InvalidAction,
    IllegalAction,
    InvalidState,
    NoAvailableActions,
    TimeLimitExceeded,
    EvaluationError,
    GameNotOver,
    Other(&'static str),
}

} // verus!
