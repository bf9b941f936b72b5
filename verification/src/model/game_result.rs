use vstd::prelude::*;
use crate::model::team::GwTeam;

verus! {

/// How a finished game ended.
pub trait GwGameResult<T: GwTeam>: Sized {
    /// The team that won, if any.
    spec fn spec_winner(&self) -> Option<T>;

    /// Returns the team that won, or `None` for a draw.
    fn winner(&self) -> (r: Option<T>)
        ensures
            r == self.spec_winner(),
    ;

    /// Returns `true` if no team won.
    fn is_draw(&self) -> (r: bool)
        ensures
            r == (self.spec_winner() is None),
    {
        self.winner().is_none()
    }
}

/// The result of a finished game between two teams.
#[derive(Debug, Copy, PartialEq, Eq, Hash)]
pub enum GameResult<T: GwTeam> {
    Win(T),
    Draw,
}

impl<T: GwTeam> Clone for GameResult<T> {
    fn clone(&self) -> (r: Self)
        ensures
            r == *self,
    {
        match self {
            GameResult::Win(team) => GameResult::Win(*team),
            GameResult::Draw => GameResult::Draw,
        }
    }
}

impl<T: GwTeam> GwGameResult<T> for GameResult<T> {
    open spec fn spec_winner(&self) -> Option<T> {
        match self {
            GameResult::Win(team) => Some(*team),
            GameResult::Draw => None,
        }
    }

    fn winner(&self) -> (r: Option<T>) {
        match self {
            GameResult::Win(team) => Some(*team),
            GameResult::Draw => None,
        }
    }

    fn is_draw(&self) -> (r: bool) {
        match self {
            GameResult::Win(_) => false,
            GameResult::Draw => true,
        }
    }
}

/// The result of a finished game between two teams, with its winner.
#[derive(Debug, Copy, PartialEq, Eq, Hash)]
pub enum TwoPlayerGameResult<T: GwTeam> {
    Winner(T),
    Draw,
}

impl<T: GwTeam> Clone for TwoPlayerGameResult<T> {
    fn clone(&self) -> (r: Self)
        ensures
            r == *self,
    {
        match self {
            TwoPlayerGameResult::Winner(team) => TwoPlayerGameResult::Winner(*team),
            TwoPlayerGameResult::Draw => TwoPlayerGameResult::Draw,
        }
    }
}

impl<T: GwTeam> GwGameResult<T> for TwoPlayerGameResult<T> {
    open spec fn spec_winner(&self) -> Option<T> {
        match self {
            TwoPlayerGameResult::Winner(team) => Some(*team),
            TwoPlayerGameResult::Draw => None,
        }
    }

    fn winner(&self) -> (r: Option<T>) {
        match self {
            TwoPlayerGameResult::Winner(team) => Some(*team),
            TwoPlayerGameResult::Draw => None,
        }
    }

    fn is_draw(&self) -> (r: bool) {
        match self {
            TwoPlayerGameResult::Winner(_) => false,
            TwoPlayerGameResult::Draw => true,
        }
    }
}

} // verus!
