use vstd::prelude::*;
use rand::rngs::StdRng;
use rand::seq::IteratorRandom;
use std::marker::PhantomData;
use crate::agents::agent::Agent;
use crate::model::error::MatchError;
use crate::model::game::Game;
use crate::model::state::GwState;

verus! {

/// The standard generator of random numbers, of which nothing is known but
/// that it can be drawn from.
#[verifier::external_type_specification]
#[verifier::external_body]
pub struct ExStdRng(StdRng);

/// Draws a position below `n` with `IteratorRandom::choose` over the range
/// from 0 to `n`: none where the range is empty, and else one of its
/// positions, whichever the generator makes it.
#[verifier::external_body]
fn choose_index(rng: &mut StdRng, n: usize) -> (r: Option<usize>)
    ensures
        n == 0 ==> r is None,
        n > 0 ==> r is Some && r.unwrap() < n,
{
    (0..n).choose(rng)
}

/// Takes the action at a drawn position out of the actions of a state.
pub fn take_drawn<G: Game>(
    state: &G::State,
    actions: Vec<G::Action>,
    drawn: Option<usize>,
) -> (r: Result<G::Action, MatchError<G>>) where G::State: GwState<G>
    requires
        actions@ == state.spec_actions(),
    ensures
        r == match drawn {
            Some(position) if position < state.spec_actions().len() => Ok::<
                G::Action,
                MatchError<G>,
            >(state.spec_actions()[position as int]),
            _ => Err::<G::Action, MatchError<G>>(MatchError::NoAvailableActions(*state)),
        },
        r matches Ok(action) ==> state.spec_actions().contains(action),
{
    let mut actions = actions;
    match drawn {
        Some(position) if position < actions.len() => Ok(actions.swap_remove(position)),
        _ => {
            let held = state.clone();
            proof {
                G::State::lemma_clone_exact(*state, held);
            }
            Err(MatchError::NoAvailableActions(held))
        },
    }
}

/// An agent that chooses one of the actions at random.
pub struct RandomAgent<G: Game> {
    rng: StdRng,
    _game: PhantomData<G>,
}

impl<G: Game> RandomAgent<G> {
    /// The generator that the agent draws from.
    pub closed spec fn generator(&self) -> StdRng {
        self.rng
    }

    /// Creates an agent that draws from the given generator.
    pub fn new(rng: StdRng) -> (agent: Self)
        ensures
            agent.generator() == rng,
    {
        RandomAgent { rng, _game: PhantomData }
    }
}

impl<G: Game> Agent<G> for RandomAgent<G> where G::State: GwState<G> {
    open spec fn ready(&self) -> bool {
        true
    }

    fn identifier() -> (name: String) {
        "unnamed".to_string()
    }

    /// The agent answers with any one of the actions, and fails only where
    /// there is none.
    open spec fn answers(&self, state: &G::State, answer: Result<G::Action, MatchError<G>>) -> bool {
        if state.spec_actions().len() == 0 {
            answer == Err::<G::Action, MatchError<G>>(MatchError::NoAvailableActions(*state))
        } else {
            answer matches Ok(action) && state.spec_actions().contains(action)
        }
    }

    /// Chooses one of the actions of the state, whichever the generator
    /// draws. Fails with `NoAvailableActions` exactly where the state has no
    /// action.
    fn select_action(&mut self, state: &G::State) -> (r: Result<G::Action, MatchError<G>>)
        ensures
            state.spec_actions().len() == 0 ==> r == Err::<G::Action, MatchError<G>>(
                MatchError::NoAvailableActions(*state),
            ),
            state.spec_actions().len() > 0 ==> r is Ok,
    {
        let actions = state.actions();
        let drawn = choose_index(&mut self.rng, actions.len());
        take_drawn::<G>(state, actions, drawn)
    }
}

} // verus!
