use vstd::prelude::*;
use crate::agents::agent::Agent;
use crate::contest::clock::{elapsed_nanos, now};
use crate::contest::history::GameHistory;
use crate::contest::match_runner::moves_first;
use crate::model::error::MatchError;
use crate::model::game::Game;
use crate::model::state::GwState;
use crate::model::team::GwTeam;

verus! {

/// A match between two agents, of which the history is kept. The first agent
/// moves for the team that starts the game.
pub struct ManagedContest<G: Game, A, B> {
    state: G::State,
    history: GameHistory<G>,
    agent_a: A,
    agent_b: B,
}

impl<G, A, B> ManagedContest<G, A, B> where
    G: Game,
    G::State: GwState<G>,
    G::Action: Clone,
    A: Agent<G>,
    B: Agent<G>,
 {
    /// The state that the game has reached.
    pub closed spec fn spec_state(&self) -> G::State {
        self.state
    }

    /// The history of the game.
    pub closed spec fn spec_history(&self) -> GameHistory<G> {
        self.history
    }

    /// The first agent.
    pub closed spec fn spec_agent_a(&self) -> A {
        self.agent_a
    }

    /// The second agent.
    pub closed spec fn spec_agent_b(&self) -> B {
        self.agent_b
    }

    /// Both agents are ready.
    pub open spec fn wf(&self) -> bool {
        self.spec_agent_a().ready() && self.spec_agent_b().ready()
    }

    /// Whether the agent whose turn it is may give `answer` in the state
    /// that the game has reached.
    pub open spec fn asked(&self, answer: Result<G::Action, MatchError<G>>) -> bool {
        if moves_first::<G>(self.spec_state()) {
            self.spec_agent_a().answers(&self.spec_state(), answer)
        } else {
            self.spec_agent_b().answers(&self.spec_state(), answer)
        }
    }

    /// Creates a contest from the given state between two agents, which are
    /// named as their kinds are known. The history keeps the second agent's
    /// name in the first place and the first agent's name in the second.
    pub fn new(initial_state: G::State, agent_a: A, agent_b: B) -> (contest: Self)
        ensures
            contest.spec_state() == initial_state,
            contest.spec_agent_a() == agent_a,
            contest.spec_agent_b() == agent_b,
            contest.spec_history()@.len() == 0,
            contest.spec_history().spec_initial_state() == initial_state,
            contest.spec_history().spec_agent_a() == B::spec_identifier(),
            contest.spec_history().spec_agent_b() == A::spec_identifier(),
    {
        Self::new_with_ids(initial_state, agent_a, agent_b, A::identifier(), B::identifier())
    }

    /// Creates a contest from the given state between two agents with the
    /// given names. The history keeps the second agent's name in the first
    /// place and the first agent's name in the second.
    pub fn new_with_ids(
        initial_state: G::State,
        agent_a: A,
        agent_b: B,
        agent_a_identifier: String,
        agent_b_identifier: String,
    ) -> (contest: Self)
        ensures
            contest.spec_state() == initial_state,
            contest.spec_agent_a() == agent_a,
            contest.spec_agent_b() == agent_b,
            contest.spec_history()@.len() == 0,
            contest.spec_history().spec_initial_state() == initial_state,
            contest.spec_history().spec_agent_a() == agent_b_identifier@,
            contest.spec_history().spec_agent_b() == agent_a_identifier@,
    {
        let begun = initial_state.clone();
        proof {
            G::State::lemma_clone_exact(initial_state, begun);
        }
        ManagedContest {
            state: begun,
            history: GameHistory::new(agent_b_identifier, agent_a_identifier, initial_state),
            agent_a,
            agent_b,
        }
    }

    /// Returns the result of the game, or nothing while it is not over.
    pub fn game_result(&self) -> (r: Option<G::GameResult>)
        ensures
            r == self.spec_state().spec_game_result(),
    {
        self.state.game_result()
    }

    /// Returns the first agent.
    pub fn agent_a(&self) -> (agent: &A)
        ensures
            *agent == self.spec_agent_a(),
    {
        &self.agent_a
    }

    /// Returns the second agent.
    pub fn agent_b(&self) -> (agent: &B)
        ensures
            *agent == self.spec_agent_b(),
    {
        &self.agent_b
    }

    /// Returns the state that the game has reached.
    pub fn state(&self) -> (state: &G::State)
        ensures
            *state == self.spec_state(),
    {
        &self.state
    }

    /// Returns the history of the game.
    pub fn history(&self) -> (history: &GameHistory<G>)
        ensures
            *history == self.spec_history(),
    {
        &self.history
    }

    /// Takes the turn that an agent has answered in `agent_time`
    /// nanoseconds: an action is applied, recorded in the history, and
    /// returned between the state before it and the state after; where the
    /// agent has failed, nothing is changed and nothing returned.
    pub fn advance(&mut self, answer: Result<G::Action, MatchError<G>>, agent_time: u128) -> (r:
        Option<(G::State, G::Action, G::State)>)
        requires
            !old(self).spec_state().spec_is_terminal(),
            answer matches Ok(action) ==> old(self).spec_state().spec_actions().contains(action),
        ensures
            final(self).spec_agent_a() == old(self).spec_agent_a(),
            final(self).spec_agent_b() == old(self).spec_agent_b(),
            match answer {
                Ok(action) => {
                    &&& r == Some(
                        (
                            old(self).spec_state(),
                            action,
                            old(self).spec_state().spec_apply(action),
                        ),
                    )
                    &&& final(self).spec_state() == old(self).spec_state().spec_apply(action)
                    &&& final(self).spec_history()@.len() == old(self).spec_history()@.len() + 1
                    &&& final(self).spec_history()@.drop_last() == old(self).spec_history()@
                    &&& cloned(action, final(self).spec_history()@.last().spec_action())
                    &&& final(self).spec_history()@.last().spec_state() == final(self).spec_state()
                    &&& final(self).spec_history()@.last().spec_agent_time() == agent_time
                },
                Err(_) => {
                    &&& r is None
                    &&& final(self).spec_state() == old(self).spec_state()
                    &&& final(self).spec_history() == old(self).spec_history()
                },
            },
    {
        match answer {
            Ok(action) => {
                let pre = self.state.clone();
                let post = self.state.apply_action(&action);
                let reached = post.clone();
                let recorded = post.clone();
                proof {
                    G::State::lemma_clone_exact(self.state, pre);
                    G::State::lemma_clone_exact(post, reached);
                    G::State::lemma_clone_exact(post, recorded);
                }
                self.state = post;
                self.history.add_turn(action.clone(), recorded, agent_time);
                Some((pre, action, reached))
            },
            Err(_) => None,
        }
    }

    /// Lets the agent whose turn it is take it, and records the turn in the
    /// history. Returns the state before the turn, the action that the agent
    /// has answered, and the state after it; or nothing, with nothing
    /// changed, where the game is over or the agent has failed.
    pub fn next(&mut self) -> (r: Option<(G::State, G::Action, G::State)>)
        requires
            old(self).wf(),
        ensures
            final(self).wf(),
            match r {
                Some((pre, action, post)) => {
                    &&& !old(self).spec_state().spec_is_terminal()
                    &&& old(self).asked(Ok(action))
                    &&& pre == old(self).spec_state()
                    &&& old(self).spec_state().spec_actions().contains(action)
                    &&& post == old(self).spec_state().spec_apply(action)
                    &&& final(self).spec_state() == post
                    &&& final(self).spec_history()@.len() == old(self).spec_history()@.len() + 1
                    &&& final(self).spec_history()@.drop_last() == old(self).spec_history()@
                    &&& cloned(action, final(self).spec_history()@.last().spec_action())
                    &&& final(self).spec_history()@.last().spec_state() == post
                },
                None => {
                    &&& final(self).spec_state() == old(self).spec_state()
                    &&& final(self).spec_history() == old(self).spec_history()
                },
            },
            old(self).spec_state().spec_is_terminal() ==> r is None,
            r is None && !old(self).spec_state().spec_is_terminal() ==> exists|error: MatchError<G>|
                old(self).asked(Err(error)) && final(self).asked(Err(error)),
            old(self).spec_state().spec_is_terminal() || !moves_first::<G>(old(self).spec_state())
                ==> final(self).spec_agent_a() == old(self).spec_agent_a(),
            old(self).spec_state().spec_is_terminal() || moves_first::<G>(old(self).spec_state())
                ==> final(self).spec_agent_b() == old(self).spec_agent_b(),
    {
        if self.state.is_terminal() {
            return None;
        }
        let first = self.state.team_to_move().polarity() == G::starting_team().polarity();
        let start = now();
        let answer = if first {
            self.agent_a.select_action(&self.state)
        } else {
            self.agent_b.select_action(&self.state)
        };
        let agent_time = elapsed_nanos(&start);
        proof {
            assert(old(self).asked(answer));
            if answer is Err {
                assert(old(self).asked(Err(answer->Err_0)));
                assert(self.asked(Err(answer->Err_0)));
            }
        }
        let ghost asked = *self;
        let r = self.advance(answer, agent_time);
        proof {
            if r is None {
                assert(self.asked(Err(answer->Err_0)) == asked.asked(Err(answer->Err_0)));
            }
        }
        r
    }

    /// Plays turn after turn until the game is over or an agent fails, and
    /// returns the result of the game if it is over. The play stops before
    /// the game is over only where the agent whose turn it is may fail, and
    /// the history only grows.
    pub fn play(&mut self) -> (r: Option<G::GameResult>)
        requires
            old(self).wf(),
        ensures
            final(self).wf(),
            r == final(self).spec_state().spec_game_result(),
            final(self).spec_state().spec_is_terminal() || exists|error: MatchError<G>|
                final(self).asked(Err(error)),
            old(self).spec_history()@.is_prefix_of(final(self).spec_history()@),
            final(self).spec_history()@.len() >= old(self).spec_history()@.len(),
            final(self).spec_history()@.len() == old(self).spec_history()@.len()
                ==> final(self).spec_state() == old(self).spec_state(),
            final(self).spec_history()@.len() > old(self).spec_history()@.len()
                ==> final(self).spec_history()@.last().spec_state() == final(self).spec_state(),
            old(self).spec_state().spec_is_terminal() ==> {
                &&& final(self).spec_state() == old(self).spec_state()
                &&& final(self).spec_history() == old(self).spec_history()
            },
    {
        loop
            invariant
                self.wf(),
                self.spec_history()@.len() >= old(self).spec_history()@.len(),
                old(self).spec_history()@.is_prefix_of(self.spec_history()@),
                self.spec_history()@.len() == old(self).spec_history()@.len() ==> self.spec_state()
                    == old(self).spec_state(),
                self.spec_history()@.len() > old(self).spec_history()@.len()
                    ==> self.spec_history()@.last().spec_state() == self.spec_state(),
                old(self).spec_state().spec_is_terminal() ==> self.spec_state() == old(
                    self,
                ).spec_state() && self.spec_history() == old(self).spec_history(),
            ensures
                self.spec_state().spec_is_terminal() || exists|error: MatchError<G>|
                    self.asked(Err(error)),
            decreases self.state.spec_rank(),
        {
            let ghost before = self.state;
            let ghost recorded = self.history@;
            match self.next() {
                Some(step) => {
                    proof {
                        before.lemma_rank_decreases(step.1);
                        assert(self.history@.drop_last() == recorded);
                        assert(recorded.is_prefix_of(self.history@));
                    }
                },
                None => {
                    break ;
                },
            }
        }
        self.game_result()
    }
}

} // verus!
