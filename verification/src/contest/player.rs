use vstd::prelude::*;
use crate::agents::agent::Agent;
use crate::contest::clock::NO_TIME_LIMIT;
use crate::model::error::{BuilderError, MatchError};
use crate::model::game::Game;
use crate::model::state::GwState;

verus! {

/// The name of a contestant of whom no name is known.
pub const UNNAMED: &'static str = "unnamed";

/// Stands between a match and an agent: it is asked for the agent, and may
/// do what the agent does not, such as keeping to the time limit.
pub trait Bridge<G: Game> where G::State: GwState<G> {
    /// Whether the bridge is fit to be asked.
    spec fn able(&self) -> bool;

    /// Whether the bridge, as it stands, may give `answer` when it is asked
    /// in `state` with the given time limit.
    spec fn replies(
        &self,
        state: &G::State,
        time_limit: u128,
        answer: Result<G::Action, MatchError<G>>,
    ) -> bool;

    /// Recommends one of the actions of `state`, within `time_limit`
    /// nanoseconds if it can.
    fn recommend_action(&mut self, state: &G::State, time_limit: u128) -> (r: Result<
        G::Action,
        MatchError<G>,
    >)
        requires
            old(self).able(),
        ensures
            final(self).able(),
            old(self).replies(state, time_limit, r),
            r matches Ok(action) ==> state.spec_actions().contains(action),
    ;
}

impl<G, A> Bridge<G> for A where G: Game, G::State: GwState<G>, A: Agent<G> {
    open spec fn able(&self) -> bool {
        self.ready()
    }

    /// An agent replies what it answers, whatever the time limit.
    open spec fn replies(
        &self,
        state: &G::State,
        time_limit: u128,
        answer: Result<G::Action, MatchError<G>>,
    ) -> bool {
        self.answers(state, answer)
    }

    /// An agent is its own bridge: it is asked as it is, whatever the time
    /// limit.
    fn recommend_action(&mut self, state: &G::State, time_limit: u128) -> (r: Result<
        G::Action,
        MatchError<G>,
    >) {
        self.select_action(state)
    }
}

/// An agent with a name and a time limit.
pub struct Player<G: Game, A> {
    agent: A,
    name: &'static str,
    time_limit: u128,
    _marker: std::marker::PhantomData<G>,
}

impl<G, A> Player<G, A> where G: Game, G::State: GwState<G>, A: Agent<G> {
    /// The agent that plays.
    pub closed spec fn spec_agent(&self) -> A {
        self.agent
    }

    /// The name of the player.
    pub closed spec fn spec_name(&self) -> &'static str {
        self.name
    }

    /// The time limit of the player, in nanoseconds.
    pub closed spec fn spec_time_limit(&self) -> u128 {
        self.time_limit
    }

    /// Creates a player of the given agent with no time limit. Which name
    /// the player has until it is given one is left open.
    pub fn new(agent: A) -> (player: Self)
        ensures
            player.spec_agent() == agent,
            player.spec_time_limit() == NO_TIME_LIMIT,
    {
        Player {
            agent,
            name: UNNAMED,
            time_limit: NO_TIME_LIMIT,
            _marker: std::marker::PhantomData,
        }
    }

    /// Gives the player the given name.
    pub fn with_name(self, name: &'static str) -> (player: Self)
        ensures
            player.spec_agent() == self.spec_agent(),
            player.spec_name() == name,
            player.spec_time_limit() == self.spec_time_limit(),
    {
        Player {
            agent: self.agent,
            name,
            time_limit: self.time_limit,
            _marker: std::marker::PhantomData,
        }
    }

    /// Gives the player the given time limit, in nanoseconds.
    pub fn with_time_limit(self, time_limit: u128) -> (player: Self)
        ensures
            player.spec_agent() == self.spec_agent(),
            player.spec_name() == self.spec_name(),
            player.spec_time_limit() == time_limit,
    {
        Player { agent: self.agent, name: self.name, time_limit, _marker: std::marker::PhantomData }
    }

    /// Asks the player's agent for an action in `state`, and returns what
    /// the agent answers.
    pub fn get_action(&mut self, state: &G::State) -> (r: Result<G::Action, MatchError<G>>)
        requires
            old(self).spec_agent().ready(),
        ensures
            final(self).spec_agent().ready(),
            final(self).spec_name() == old(self).spec_name(),
            final(self).spec_time_limit() == old(self).spec_time_limit(),
            old(self).spec_agent().answers(state, r),
            r matches Ok(action) ==> state.spec_actions().contains(action),
    {
        self.agent.select_action(state)
    }

    /// Asks the player's agent, through its bridge, for an action in `state`
    /// within the player's time limit, and returns what the agent answers.
    pub fn recommend_action(&mut self, state: &G::State) -> (r: Result<G::Action, MatchError<G>>)
        requires
            old(self).spec_agent().ready(),
        ensures
            final(self).spec_agent().ready(),
            final(self).spec_name() == old(self).spec_name(),
            final(self).spec_time_limit() == old(self).spec_time_limit(),
            old(self).spec_agent().answers(state, r),
            r matches Ok(action) ==> state.spec_actions().contains(action),
    {
        self.agent.recommend_action(state, self.time_limit)
    }

    /// Returns the name of the player.
    pub fn name(&self) -> (name: &str)
        ensures
            name == self.spec_name(),
    {
        self.name
    }

    /// Returns the time limit of the player, in nanoseconds.
    pub fn time_limit(&self) -> (nanos: u128)
        ensures
            nanos == self.spec_time_limit(),
    {
        self.time_limit
    }
}

/// Builds a player step by step.
pub struct PlayerBuilder<G: Game, A> {
    agent: Option<A>,
    name: Option<&'static str>,
    time_limit: Option<u128>,
    _marker: std::marker::PhantomData<G>,
}

impl<G, A> PlayerBuilder<G, A> where G: Game, G::State: GwState<G>, A: Agent<G> {
    /// The agent that was set, if one was.
    pub closed spec fn spec_agent(&self) -> Option<A> {
        self.agent
    }

    /// The name that was set, if one was.
    pub closed spec fn spec_name(&self) -> Option<&'static str> {
        self.name
    }

    /// The time limit that was set, if one was.
    pub closed spec fn spec_time_limit(&self) -> Option<u128> {
        self.time_limit
    }

    /// Creates a builder with nothing set.
    pub fn new() -> (builder: Self)
        ensures
            builder.spec_agent() is None,
            builder.spec_name() is None,
            builder.spec_time_limit() is None,
    {
        PlayerBuilder { agent: None, name: None, time_limit: None, _marker: std::marker::PhantomData }
    }

    /// Sets the agent that plays.
    pub fn agent(self, agent: A) -> (builder: Self)
        ensures
            builder.spec_agent() == Some(agent),
            builder.spec_name() == self.spec_name(),
            builder.spec_time_limit() == self.spec_time_limit(),
    {
        PlayerBuilder {
            agent: Some(agent),
            name: self.name,
            time_limit: self.time_limit,
            _marker: std::marker::PhantomData,
        }
    }

    /// Sets the name of the player.
    pub fn name(self, name: &'static str) -> (builder: Self)
        ensures
            builder.spec_agent() == self.spec_agent(),
            builder.spec_name() == Some(name),
            builder.spec_time_limit() == self.spec_time_limit(),
    {
        PlayerBuilder {
            agent: self.agent,
            name: Some(name),
            time_limit: self.time_limit,
            _marker: std::marker::PhantomData,
        }
    }

    /// Sets the time limit of the player, in nanoseconds. A player without
    /// one has no time limit.
    pub fn time_limit(self, time_limit: u128) -> (builder: Self)
        ensures
            builder.spec_agent() == self.spec_agent(),
            builder.spec_name() == self.spec_name(),
            builder.spec_time_limit() == Some(time_limit),
    {
        PlayerBuilder {
            agent: self.agent,
            name: self.name,
            time_limit: Some(time_limit),
            _marker: std::marker::PhantomData,
        }
    }

    /// Builds the player. Fails with `MissingAttribute` exactly where no
    /// agent was set. Which name a player has that was given none is left
    /// open; one without a time limit has none.
    pub fn build(self) -> (r: Result<Player<G, A>, BuilderError>)
        ensures
            self.spec_agent() is None <==> r is Err,
            r matches Err(error) ==> error == BuilderError::MissingAttribute("Agent not set"),
            r matches Ok(player) ==> {
                &&& Some(player.spec_agent()) == self.spec_agent()
                &&& self.spec_name() matches Some(name) ==> player.spec_name() == name
                &&& player.spec_time_limit() == (match self.spec_time_limit() {
                    Some(nanos) => nanos,
                    None => NO_TIME_LIMIT,
                })
            },
    {
        match self.agent {
            Some(agent) => {
                let name = match self.name {
                    Some(name) => name,
                    None => UNNAMED,
                };
                let time_limit = match self.time_limit {
                    Some(nanos) => nanos,
                    None => NO_TIME_LIMIT,
                };
                Ok(Player { agent, name, time_limit, _marker: std::marker::PhantomData })
            },
            None => Err(BuilderError::MissingAttribute("Agent not set")),
        }
    }
}

} // verus!
