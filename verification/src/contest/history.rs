use vstd::prelude::*;
use crate::model::game::Game;

verus! {

/// One turn of a match: the action that was taken, the state that it led to,
/// and the nanoseconds that the agent took to choose it.
pub struct Turn<G: Game> {
    action: G::Action,
    state: G::State,
    agent_time: u128,
}

impl<G: Game> Turn<G> {
    /// The action that was taken.
    pub closed spec fn spec_action(&self) -> G::Action {
        self.action
    }

    /// The state that the action led to.
    pub closed spec fn spec_state(&self) -> G::State {
        self.state
    }

    /// The nanoseconds that the agent took.
    pub closed spec fn spec_agent_time(&self) -> u128 {
        self.agent_time
    }

    /// Returns the action that was taken.
    pub fn action(&self) -> (action: &G::Action)
        ensures
            *action == self.spec_action(),
    {
        &self.action
    }

    /// Returns the state that the action led to.
    pub fn state(&self) -> (state: &G::State)
        ensures
            *state == self.spec_state(),
    {
        &self.state
    }

    /// Returns the nanoseconds that the agent took.
    pub fn agent_time(&self) -> (nanos: u128)
        ensures
            nanos == self.spec_agent_time(),
    {
        self.agent_time
    }
}

/// The execution history of a game played between two agents.
pub struct GameHistory<G: Game> {
    agent_a_id: String,
    agent_b_id: String,
    initial_state: G::State,
    turns: Vec<Turn<G>>,
}

impl<G: Game> GameHistory<G> {
    /// The turns recorded so far, first to last.
    pub closed spec fn view(&self) -> Seq<Turn<G>> {
        self.turns@
    }

    /// The name of the first agent.
    pub closed spec fn spec_agent_a(&self) -> Seq<char> {
        self.agent_a_id@
    }

    /// The name of the second agent.
    pub closed spec fn spec_agent_b(&self) -> Seq<char> {
        self.agent_b_id@
    }

    /// The state from which the game began.
    pub closed spec fn spec_initial_state(&self) -> G::State {
        self.initial_state
    }

    /// Creates the history of a game that has not begun.
    pub fn new(agent_a_id: String, agent_b_id: String, initial_state: G::State) -> (history: Self)
        ensures
            history@ == Seq::<Turn<G>>::empty(),
            history.spec_agent_a() == agent_a_id@,
            history.spec_agent_b() == agent_b_id@,
            history.spec_initial_state() == initial_state,
    {
        GameHistory { agent_a_id, agent_b_id, initial_state, turns: Vec::new() }
    }

    /// Returns the turns recorded so far.
    pub fn turns(&self) -> (turns: &[Turn<G>])
        ensures
            turns@ == self@,
    {
        self.turns.as_slice()
    }

    /// Returns the name of the first agent.
    pub fn agent_a(&self) -> (name: &str)
        ensures
            name@ == self.spec_agent_a(),
    {
        self.agent_a_id.as_str()
    }

    /// Returns the name of the second agent.
    pub fn agent_b(&self) -> (name: &str)
        ensures
            name@ == self.spec_agent_b(),
    {
        self.agent_b_id.as_str()
    }

    /// Returns the state from which the game began.
    pub fn initial_state(&self) -> (state: &G::State)
        ensures
            *state == self.spec_initial_state(),
    {
        &self.initial_state
    }

    /// Returns the turn at the given position.
    pub fn turn(&self, index: usize) -> (turn: &Turn<G>)
        requires
            index < self@.len(),
        ensures
            *turn == self@[index as int],
    {
        &self.turns[index]
    }

    /// Records a turn after those recorded so far.
    pub fn add_turn(&mut self, action: G::Action, state: G::State, agent_time: u128)
        ensures
            final(self)@.len() == old(self)@.len() + 1,
            final(self)@.drop_last() == old(self)@,
            final(self)@.last().spec_action() == action,
            final(self)@.last().spec_state() == state,
            final(self)@.last().spec_agent_time() == agent_time,
            final(self).spec_agent_a() == old(self).spec_agent_a(),
            final(self).spec_agent_b() == old(self).spec_agent_b(),
            final(self).spec_initial_state() == old(self).spec_initial_state(),
    {
        self.turns.push(Turn { action, state, agent_time });
        proof {
            assert(self.turns@.drop_last() =~= old(self).turns@);
        }
    }
}

} // verus!
