use vstd::prelude::*;
use crate::model::game::Game;

verus! {

/// A move of a game. Whether it is legal in a position is for the state to say.
pub trait GwAction<G>: Sized + Clone where G: Game<Action = Self> {
}

} // verus!
