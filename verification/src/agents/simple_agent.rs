use vstd::prelude::*;
use std::marker::PhantomData;
use crate::agents::agent::{picks, Agent};
use crate::model::error::MatchError;
use crate::model::game::Game;
use crate::model::state::GwState;

verus! {

/// The first of the actions of a state, or that there is none.
pub fn first_action<G: Game>(state: &G::State) -> (r: Result<G::Action, MatchError<G>>) where
    G::State: GwState<G>,

    ensures
        state.spec_actions().len() == 0 ==> r == Err::<G::Action, MatchError<G>>(
            MatchError::NoAvailableActions(*state),
        ),
        state.spec_actions().len() > 0 ==> r == Ok::<G::Action, MatchError<G>>(
            state.spec_actions()[0],
        ),
        r matches Ok(action) ==> state.spec_actions().contains(action),
{
    let mut actions = state.actions();
    if actions.len() == 0 {
        let held = state.clone();
        proof {
            G::State::lemma_clone_exact(*state, held);
        }
        Err(MatchError::NoAvailableActions(held))
    } else {
        Ok(actions.swap_remove(0))
    }
}

/// The simplest agent possible, which always recommends the first available
/// action.
pub struct SimpleAgent<G> {
    _marker: PhantomData<G>,
}

impl<G: Game> SimpleAgent<G> {
    /// Creates the agent.
    pub fn new() -> Self {
        SimpleAgent { _marker: PhantomData }
    }
}

impl<G: Game> Default for SimpleAgent<G> {
    fn default() -> Self {
        SimpleAgent { _marker: PhantomData }
    }
}

impl<G: Game> Agent<G> for SimpleAgent<G> where G::State: GwState<G> {
    open spec fn ready(&self) -> bool {
        true
    }

    fn identifier() -> (name: String) {
        "unnamed".to_string()
    }

    /// The agent answers with the first action.
    open spec fn answers(&self, state: &G::State, answer: Result<G::Action, MatchError<G>>) -> bool {
        picks::<G>(*state, 0, answer)
    }

    /// Chooses the first action of the state. Fails with
    /// `NoAvailableActions` exactly where the state has no action.
    fn select_action(&mut self, state: &G::State) -> (r: Result<G::Action, MatchError<G>>)
        ensures
            state.spec_actions().len() == 0 ==> r == Err::<G::Action, MatchError<G>>(
                MatchError::NoAvailableActions(*state),
            ),
            state.spec_actions().len() > 0 ==> r == Ok::<G::Action, MatchError<G>>(
                state.spec_actions()[0],
            ),
    {
        first_action::<G>(state)
    }
}

/// An agent that takes whatever comes first.
pub struct MonkeAgent<G> {
    _marker: PhantomData<G>,
}

impl<G: Game> MonkeAgent<G> {
    /// Creates the agent.
    pub fn new() -> Self {
        MonkeAgent { _marker: PhantomData }
    }

}

impl<G: Game> Default for MonkeAgent<G> {
    fn default() -> Self {
        MonkeAgent { _marker: PhantomData }
    }
}

impl<G: Game> Agent<G> for MonkeAgent<G> where G::State: GwState<G> {
    open spec fn ready(&self) -> bool {
        true
    }

    open spec fn spec_identifier() -> Seq<char> {
        "MonkeAgent"@
    }

    fn identifier() -> (name: String) {
        "MonkeAgent".to_string()
    }

    /// The agent answers with the first action.
    open spec fn answers(&self, state: &G::State, answer: Result<G::Action, MatchError<G>>) -> bool {
        picks::<G>(*state, 0, answer)
    }

    /// Chooses the first action of the state. Fails with
    /// `NoAvailableActions` exactly where the state has no action.
    fn select_action(&mut self, state: &G::State) -> (r: Result<G::Action, MatchError<G>>)
        ensures
            state.spec_actions().len() == 0 ==> r == Err::<G::Action, MatchError<G>>(
                MatchError::NoAvailableActions(*state),
            ),
            state.spec_actions().len() > 0 ==> r == Ok::<G::Action, MatchError<G>>(
                state.spec_actions()[0],
            ),
    {
        first_action::<G>(state)
    }
}

} // verus!
