use vstd::prelude::*;
use std::marker::PhantomData;
use crate::agents::agent::Agent;
use crate::model::error::MatchError;
use crate::model::game::Game;
use crate::model::state::GwState;

verus! {

/// An agent that chooses as a function says.
pub struct FunctionalAgent<G, F> {
    f: F,
    _marker: PhantomData<G>,
}

impl<G, F> FunctionalAgent<G, F> where
    G: Game,
    G::State: GwState<G>,
    F: Fn(&G::State) -> Result<G::Action, MatchError<G>>,
 {
    /// The function that the agent asks.
    pub closed spec fn function(&self) -> F {
        self.f
    }

    /// Creates an agent that chooses as `f` says.
    pub fn new(f: F) -> (agent: Self)
        ensures
            agent.function() == f,
    {
        FunctionalAgent { f, _marker: PhantomData }
    }
}

/// Whether a function can be asked about every state, and then names nothing
/// but an action of that state.
pub open spec fn chooses_legally<G, F>(f: F) -> bool where
    G: Game,
    G::State: GwState<G>,
    F: Fn(&G::State) -> Result<G::Action, MatchError<G>>,
 {
    forall|state: G::State|
        {
            &&& #[trigger] f.requires((&state,))
            &&& forall|r: Result<G::Action, MatchError<G>>|
                #![trigger f.ensures((&state,), r)]
                f.ensures((&state,), r) ==> (r matches Ok(action) ==> state.spec_actions().contains(
                    action,
                ))
        }
}

impl<G, F> Agent<G> for FunctionalAgent<G, F> where
    G: Game,
    G::State: GwState<G>,
    F: Fn(&G::State) -> Result<G::Action, MatchError<G>>,
 {
    /// The agent is ready if its function chooses legally.
    open spec fn ready(&self) -> bool {
        chooses_legally::<G, F>(self.function())
    }

    fn identifier() -> (name: String) {
        "unnamed".to_string()
    }

    /// The agent answers what the function may return for the state.
    open spec fn answers(&self, state: &G::State, answer: Result<G::Action, MatchError<G>>) -> bool {
        self.function().ensures((state,), answer)
    }

    /// Chooses what the function returns for the state.
    fn select_action(&mut self, state: &G::State) -> (r: Result<G::Action, MatchError<G>>)
        ensures
            final(self).function() == old(self).function(),
            old(self).function().ensures((state,), r),
    {
        proof {
            assert(self.f.requires((&*state,)));
        }
        let r = (self.f)(state);
        proof {
            assert(self.f.ensures((&*state,), r));
        }
        r
    }
}

} // verus!
