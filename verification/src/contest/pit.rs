use vstd::prelude::*;
use crate::agents::agent::Agent;
use crate::model::error::MatchError;
use crate::model::game::Game;
use crate::model::state::GwState;

verus! {

/// Pits two agents against each other: the first moves on every even turn,
/// the second on every odd one.
#[allow(non_snake_case)]
pub struct Pit<G: Game, A, B> {
    agentA: A,
    agentB: B,
    turn: usize,
    state: G::State,
}

impl<G, A, B> Pit<G, A, B> where G: Game, G::State: GwState<G>, A: Agent<G>, B: Agent<G> {
    /// The state that the game has reached.
    pub closed spec fn spec_state(&self) -> G::State {
        self.state
    }

    /// The number of turns taken, modulo the size of the machine word.
    pub closed spec fn spec_turn(&self) -> usize {
        self.turn
    }

    /// The first agent.
    pub closed spec fn spec_agent_a(&self) -> A {
        self.agentA
    }

    /// The second agent.
    pub closed spec fn spec_agent_b(&self) -> B {
        self.agentB
    }

    /// Both agents are ready.
    pub open spec fn wf(&self) -> bool {
        self.spec_agent_a().ready() && self.spec_agent_b().ready()
    }

    /// Whether the agent whose turn it is may give `answer` in the state
    /// that the game has reached.
    pub open spec fn asked(&self, answer: Result<G::Action, MatchError<G>>) -> bool {
        if self.spec_turn() % 2 == 0 {
            self.spec_agent_a().answers(&self.spec_state(), answer)
        } else {
            self.spec_agent_b().answers(&self.spec_state(), answer)
        }
    }

    /// Sets the two agents to a game that begins in `initial`.
    #[allow(non_snake_case)]
    pub fn new(agentA: A, agentB: B, initial: G::State) -> (pit: Self)
        ensures
            pit.spec_state() == initial,
            pit.spec_turn() == 0,
            pit.spec_agent_a() == agentA,
            pit.spec_agent_b() == agentB,
    {
        Pit { agentA, agentB, turn: 0, state: initial }
    }

    /// Takes the turn that an agent has answered: an action is applied to the
    /// state and returned between the state before it and the state after;
    /// where the agent has failed, nothing is changed and nothing returned.
    pub fn advance(&mut self, answer: Result<G::Action, MatchError<G>>) -> (r: Option<
        (G::State, G::Action, G::State),
    >)
        requires
            !old(self).spec_state().spec_is_terminal(),
            answer matches Ok(action) ==> old(self).spec_state().spec_actions().contains(action),
        ensures
            final(self).spec_agent_a() == old(self).spec_agent_a(),
            final(self).spec_agent_b() == old(self).spec_agent_b(),
            match answer {
                Ok(action) => {
                    &&& r == Some(
                        (
                            old(self).spec_state(),
                            action,
                            old(self).spec_state().spec_apply(action),
                        ),
                    )
                    &&& final(self).spec_state() == old(self).spec_state().spec_apply(action)
                    &&& final(self).spec_turn() == (if old(self).spec_turn() == usize::MAX {
                        0
                    } else {
                        old(self).spec_turn() + 1
                    })
                },
                Err(_) => {
                    &&& r is None
                    &&& final(self).spec_state() == old(self).spec_state()
                    &&& final(self).spec_turn() == old(self).spec_turn()
                },
            },
    {
        match answer {
            Ok(action) => {
                let pre = self.state.clone();
                let post = self.state.apply_action(&action);
                let reached = post.clone();
                proof {
                    G::State::lemma_clone_exact(self.state, pre);
                    G::State::lemma_clone_exact(post, reached);
                }
                self.state = post;
                self.turn = self.turn.wrapping_add(1);
                Some((pre, action, reached))
            },
            Err(_) => None,
        }
    }

    /// Lets the agent whose turn it is take it. Returns the state before the
    /// turn, the action that the agent has answered, and the state after it;
    /// or nothing, with nothing changed, where the game is over or the agent
    /// has failed.
    pub fn next(&mut self) -> (r: Option<(G::State, G::Action, G::State)>)
        requires
            old(self).wf(),
        ensures
            final(self).wf(),
            match r {
                Some((pre, action, post)) => {
                    &&& !old(self).spec_state().spec_is_terminal()
                    &&& old(self).asked(Ok(action))
                    &&& pre == old(self).spec_state()
                    &&& old(self).spec_state().spec_actions().contains(action)
                    &&& post == old(self).spec_state().spec_apply(action)
                    &&& final(self).spec_state() == post
                    &&& final(self).spec_turn() == (if old(self).spec_turn() == usize::MAX {
                        0
                    } else {
                        old(self).spec_turn() + 1
                    })
                },
                None => {
                    &&& final(self).spec_state() == old(self).spec_state()
                    &&& final(self).spec_turn() == old(self).spec_turn()
                },
            },
            old(self).spec_state().spec_is_terminal() ==> r is None,
            r is None && !old(self).spec_state().spec_is_terminal() ==> exists|error: MatchError<G>|
                old(self).asked(Err(error)) && final(self).asked(Err(error)),
            old(self).spec_state().spec_is_terminal() || old(self).spec_turn() % 2 != 0
                ==> final(self).spec_agent_a() == old(self).spec_agent_a(),
            old(self).spec_state().spec_is_terminal() || old(self).spec_turn() % 2 == 0
                ==> final(self).spec_agent_b() == old(self).spec_agent_b(),
    {
        if self.state.is_terminal() {
            return None;
        }
        let answer = if self.turn % 2 == 0 {
            self.agentA.select_action(&self.state)
        } else {
            self.agentB.select_action(&self.state)
        };
        proof {
            assert(old(self).asked(answer));
            if answer is Err {
                assert(old(self).asked(Err(answer->Err_0)));
                assert(self.asked(Err(answer->Err_0)));
            }
        }
        let ghost asked = *self;
        let r = self.advance(answer);
        proof {
            if r is None {
                assert(self.asked(Err(answer->Err_0)) == asked.asked(Err(answer->Err_0)));
            }
        }
        r
    }

    /// Plays turn after turn until the game is over or an agent fails, and
    /// returns the result of the game if it is over. The play stops before
    /// the game is over only where the agent whose turn it is may fail.
    pub fn playout(&mut self) -> (r: Option<G::GameResult>)
        requires
            old(self).wf(),
        ensures
            final(self).wf(),
            r == final(self).spec_state().spec_game_result(),
            final(self).spec_state().spec_is_terminal() || exists|error: MatchError<G>|
                final(self).asked(Err(error)),
            old(self).spec_state().spec_is_terminal() ==> final(self).spec_state() == old(
                self,
            ).spec_state(),
    {
        loop
            invariant
                self.wf(),
                old(self).spec_state().spec_is_terminal() ==> self.spec_state() == old(
                    self,
                ).spec_state(),
            ensures
                self.spec_state().spec_is_terminal() || exists|error: MatchError<G>|
                    self.asked(Err(error)),
            decreases self.state.spec_rank(),
        {
            let ghost before = self.state;
            match self.next() {
                Some(step) => {
                    proof {
                        before.lemma_rank_decreases(step.1);
                    }
                },
                None => {
                    break ;
                },
            }
        }
        self.state.game_result()
    }

    /// Returns the result of the game, or nothing while it is not over.
    pub fn game_result(&self) -> (r: Option<G::GameResult>)
        ensures
            r == self.spec_state().spec_game_result(),
    {
        self.state.game_result()
    }

    /// Returns the state that the game has reached.
    pub fn state(&self) -> (state: &G::State)
        ensures
            *state == self.spec_state(),
    {
        &self.state
    }

    /// Returns the first agent.
    #[allow(non_snake_case)]
    pub fn agentA(&self) -> (agent: &A)
        ensures
            *agent == self.spec_agent_a(),
    {
        &self.agentA
    }

    /// Returns the first agent, to be changed.
    #[allow(non_snake_case)]
    pub fn agentA_mut(&mut self) -> (agent: &mut A)
        ensures
            *agent == old(self).spec_agent_a(),
            final(self).spec_agent_a() == *final(agent),
            final(self).spec_agent_b() == old(self).spec_agent_b(),
            final(self).spec_state() == old(self).spec_state(),
            final(self).spec_turn() == old(self).spec_turn(),
    {
        &mut self.agentA
    }

    /// Returns the second agent.
    #[allow(non_snake_case)]
    pub fn agentB(&self) -> (agent: &B)
        ensures
            *agent == self.spec_agent_b(),
    {
        &self.agentB
    }

    /// Returns the second agent, to be changed.
    #[allow(non_snake_case)]
    pub fn agentB_mut(&mut self) -> (agent: &mut B)
        ensures
            *agent == old(self).spec_agent_b(),
            final(self).spec_agent_b() == *final(agent),
            final(self).spec_agent_a() == old(self).spec_agent_a(),
            final(self).spec_state() == old(self).spec_state(),
            final(self).spec_turn() == old(self).spec_turn(),
    {
        &mut self.agentB
    }
}

} // verus!
