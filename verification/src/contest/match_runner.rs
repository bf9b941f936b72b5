use vstd::prelude::*;
use crate::agents::agent::Agent;
use crate::contest::clock::{elapsed_nanos, now, NO_TIME_LIMIT};
use crate::model::error::MatchError;
use crate::model::game::Game;
use crate::model::state::GwState;
use crate::model::team::GwTeam;

verus! {

/// What a turn of a match comes to: the state before it, the action, and the
/// state after it; or why the match has stopped.
pub type Step<G> = Result<
    (<G as Game>::State, <G as Game>::Action, <G as Game>::State),
    MatchError<G>,
>;

/// A match between two agents. The first agent moves for the team that
/// starts the game, the second for the other.
///
/// A match can be stepped through turn by turn. Once a turn has come to an
/// error, the match is over: it takes no further turn.
///
/// * `check`: each action that an agent chooses is checked, and an action
///   that the state does not offer ends the match with `IllegalAction`.
/// * `time_limit`: the nanoseconds that an agent is meant to take at most
///   for a turn.
/// * `enforce`: an agent that takes longer than the time limit ends the
///   match with `TimeLimitExceeded`.
pub struct Match<G: Game, A, B> {
    agent1: A,
    agent2: B,
    state: G::State,
    error: bool,
    check: bool,
    time_limit: u128,
    enforce: bool,
}

impl<G, A, B> Match<G, A, B> where G: Game, G::State: GwState<G>, A: Agent<G>, B: Agent<G> {
    /// The state that the game has reached.
    pub closed spec fn spec_state(&self) -> G::State {
        self.state
    }

    /// Whether a turn has come to an error.
    pub closed spec fn failed(&self) -> bool {
        self.error
    }

    /// Whether actions are checked.
    pub closed spec fn checks(&self) -> bool {
        self.check
    }

    /// The time limit, in nanoseconds.
    pub closed spec fn spec_time_limit(&self) -> u128 {
        self.time_limit
    }

    /// Whether the time limit is enforced.
    pub closed spec fn enforces(&self) -> bool {
        self.enforce
    }

    /// The first agent.
    pub closed spec fn spec_agent1(&self) -> A {
        self.agent1
    }

    /// The second agent.
    pub closed spec fn spec_agent2(&self) -> B {
        self.agent2
    }

    /// Whether the agent whose turn it is may give `answer` in the state
    /// that the game has reached.
    pub open spec fn asked(&self, answer: Result<G::Action, MatchError<G>>) -> bool {
        if moves_first::<G>(self.spec_state()) {
            self.spec_agent1().answers(&self.spec_state(), answer)
        } else {
            self.spec_agent2().answers(&self.spec_state(), answer)
        }
    }

    /// Whether a match with these agents and settings may stop with
    /// `error`: one of the agents may answer with it in some state; or the
    /// time limit is enforced and the error says that a time over the limit
    /// was taken; or actions are checked and the error names an action that
    /// its state does not offer.
    pub open spec fn stops_with(&self, error: MatchError<G>) -> bool {
        ||| exists|state: G::State| #[trigger] self.spec_agent1().answers(&state, Err(error))
        ||| exists|state: G::State| #[trigger] self.spec_agent2().answers(&state, Err(error))
        ||| (error matches MatchError::TimeLimitExceeded { limit, time } && self.enforces() && limit
            == self.spec_time_limit() && time > limit)
        ||| (error matches MatchError::IllegalAction { action, state } && self.checks()
            && !state.spec_actions().contains(action))
    }

    /// Both agents are ready.
    pub open spec fn wf(&self) -> bool {
        self.spec_agent1().ready() && self.spec_agent2().ready()
    }

    /// Whether `other` is this match with, perhaps, other settings.
    pub open spec fn same_game(&self, other: &Self) -> bool {
        &&& self.spec_state() == other.spec_state()
        &&& self.failed() == other.failed()
        &&& self.spec_agent1() == other.spec_agent1()
        &&& self.spec_agent2() == other.spec_agent2()
    }

    /// Creates a match between two agents, from the initial state of the
    /// game, with no time limit and no checks.
    pub fn new(agent1: A, agent2: B) -> (game: Self)
        ensures
            game.spec_state() == G::spec_initial_state(),
            game.spec_agent1() == agent1,
            game.spec_agent2() == agent2,
            !game.failed(),
            !game.checks(),
            !game.enforces(),
            game.spec_time_limit() == NO_TIME_LIMIT,
    {
        Match {
            agent1,
            agent2,
            state: G::initial_state(),
            error: false,
            check: false,
            time_limit: NO_TIME_LIMIT,
            enforce: false,
        }
    }

    /// Begins the match in the given state instead.
    pub fn with_init_state(self, state: G::State) -> (game: Self)
        ensures
            game.spec_state() == state,
            game.failed() == self.failed(),
            game.spec_agent1() == self.spec_agent1(),
            game.spec_agent2() == self.spec_agent2(),
            game.checks() == self.checks(),
            game.enforces() == self.enforces(),
            game.spec_time_limit() == self.spec_time_limit(),
    {
        Match {
            agent1: self.agent1,
            agent2: self.agent2,
            state,
            error: self.error,
            check: self.check,
            time_limit: self.time_limit,
            enforce: self.enforce,
        }
    }

    /// Sets whether each action is checked.
    pub fn check_actions(self, check: bool) -> (game: Self)
        ensures
            self.same_game(&game),
            game.checks() == check,
            game.enforces() == self.enforces(),
            game.spec_time_limit() == self.spec_time_limit(),
    {
        Match {
            agent1: self.agent1,
            agent2: self.agent2,
            state: self.state,
            error: self.error,
            check,
            time_limit: self.time_limit,
            enforce: self.enforce,
        }
    }

    /// Sets the time limit for a turn, in nanoseconds.
    pub fn with_time_limit(self, time_limit: u128) -> (game: Self)
        ensures
            self.same_game(&game),
            game.checks() == self.checks(),
            game.enforces() == self.enforces(),
            game.spec_time_limit() == time_limit,
    {
        Match {
            agent1: self.agent1,
            agent2: self.agent2,
            state: self.state,
            error: self.error,
            check: self.check,
            time_limit,
            enforce: self.enforce,
        }
    }

    /// Sets whether the time limit is enforced.
    pub fn enforce_time_limit(self, enforce: bool) -> (game: Self)
        ensures
            self.same_game(&game),
            game.checks() == self.checks(),
            game.enforces() == enforce,
            game.spec_time_limit() == self.spec_time_limit(),
    {
        Match {
            agent1: self.agent1,
            agent2: self.agent2,
            state: self.state,
            error: self.error,
            check: self.check,
            time_limit: self.time_limit,
            enforce,
        }
    }

    /// Returns the time limit, in nanoseconds.
    pub fn time_limit(&self) -> (nanos: u128)
        ensures
            nanos == self.spec_time_limit(),
    {
        self.time_limit
    }

    /// Returns the state that the game has reached.
    pub fn state(&self) -> (state: &G::State)
        ensures
            *state == self.spec_state(),
    {
        &self.state
    }

    /// Returns the first agent, which moves for the team that starts.
    pub fn agent1(&self) -> (agent: &A)
        ensures
            *agent == self.spec_agent1(),
    {
        &self.agent1
    }

    /// Returns the second agent.
    pub fn agent2(&self) -> (agent: &B)
        ensures
            *agent == self.spec_agent2(),
    {
        &self.agent2
    }

    /// Returns the result of the game, or nothing while it is not over.
    pub fn game_result(&self) -> (r: Option<G::GameResult>)
        ensures
            r == self.spec_state().spec_game_result(),
    {
        self.state.game_result()
    }

    /// Settles the turn that an agent has answered in `agent_time`
    /// nanoseconds.
    ///
    /// A failure of the agent ends the match with that failure. So does,
    /// where the time limit is enforced, an answer that took longer than the
    /// limit, with `TimeLimitExceeded`; and, where actions are checked, an
    /// action that the state does not offer, with `IllegalAction`. Otherwise
    /// the action is applied, and returned between the state before it and
    /// the state after.
    pub fn settle(&mut self, answer: Result<G::Action, MatchError<G>>, agent_time: u128) -> (r: Step<G>)
        requires
            !old(self).spec_state().spec_is_terminal(),
            !old(self).checks() ==> (answer matches Ok(action) ==> old(
                self,
            ).spec_state().spec_actions().contains(action)),
        ensures
            final(self).spec_agent1() == old(self).spec_agent1(),
            final(self).spec_agent2() == old(self).spec_agent2(),
            final(self).checks() == old(self).checks(),
            final(self).enforces() == old(self).enforces(),
            final(self).spec_time_limit() == old(self).spec_time_limit(),
            r == settled::<G>(
                old(self).spec_state(),
                answer,
                agent_time,
                old(self).checks(),
                old(self).enforces(),
                old(self).spec_time_limit(),
            ),
            final(self).failed() == (old(self).failed() || r is Err),
            final(self).spec_state() == (match r {
                Ok(step) => step.2,
                Err(_) => old(self).spec_state(),
            }),
    {
        let action = match answer {
            Ok(action) => action,
            Err(error) => {
                self.error = true;
                return Err(error);
            },
        };
        if self.enforce && agent_time > self.time_limit {
            self.error = true;
            return Err(MatchError::TimeLimitExceeded { limit: self.time_limit, time: agent_time });
        }
        if self.check {
            if !self.state.is_legal(&action) {
                self.error = true;
                let held = self.state.clone();
                proof {
                    G::State::lemma_clone_exact(self.state, held);
                }
                return Err(MatchError::IllegalAction { action, state: held });
            }
        }
        let pre = self.state.clone();
        let post = self.state.apply_action(&action);
        let reached = post.clone();
        proof {
            G::State::lemma_clone_exact(self.state, pre);
            G::State::lemma_clone_exact(post, reached);
        }
        self.state = post;
        Ok((pre, action, reached))
    }

    /// Lets the agent whose turn it is take it, and settles the turn by the
    /// time that the agent took. Returns nothing, with nothing changed, where
    /// the game is over or an earlier turn has come to an error.
    pub fn next(&mut self) -> (r: Option<Step<G>>)
        requires
            old(self).wf(),
        ensures
            final(self).wf(),
            final(self).checks() == old(self).checks(),
            final(self).enforces() == old(self).enforces(),
            final(self).spec_time_limit() == old(self).spec_time_limit(),
            r is None <==> (old(self).failed() || old(self).spec_state().spec_is_terminal()),
            r is None ==> final(self).spec_state() == old(self).spec_state() && final(self).failed()
                == old(self).failed(),
            r matches Some(Ok(step)) ==> {
                &&& step.0 == old(self).spec_state()
                &&& old(self).spec_state().spec_actions().contains(step.1)
                &&& step.2 == old(self).spec_state().spec_apply(step.1)
                &&& final(self).spec_state() == step.2
                &&& !final(self).failed()
            },
            r matches Some(Ok(step)) ==> old(self).asked(Ok(step.1)),
            r matches Some(Err(error)) ==> {
                &&& final(self).failed()
                &&& final(self).spec_state() == old(self).spec_state()
                &&& old(self).stops_with(error)
            },
            forall|state: G::State, answer: Result<G::Action, MatchError<G>>| #[trigger]
                final(self).spec_agent1().answers(&state, answer) == old(
                    self,
                ).spec_agent1().answers(&state, answer),
            forall|state: G::State, answer: Result<G::Action, MatchError<G>>| #[trigger]
                final(self).spec_agent2().answers(&state, answer) == old(
                    self,
                ).spec_agent2().answers(&state, answer),
            r is None || !moves_first::<G>(old(self).spec_state()) ==> final(self).spec_agent1()
                == old(self).spec_agent1(),
            r is None || moves_first::<G>(old(self).spec_state()) ==> final(self).spec_agent2()
                == old(self).spec_agent2(),
    {
        if self.error {
            return None;
        }
        if self.state.is_terminal() {
            return None;
        }
        let first = self.state.team_to_move().polarity() == G::starting_team().polarity();
        let start = now();
        let answer = if first {
            self.agent1.select_action(&self.state)
        } else {
            self.agent2.select_action(&self.state)
        };
        let agent_time = elapsed_nanos(&start);
        proof {
            assert(old(self).asked(answer));
            if answer is Err {
                if first {
                    assert(old(self).spec_agent1().answers(
                        &old(self).spec_state(),
                        Err(answer->Err_0),
                    ));
                } else {
                    assert(old(self).spec_agent2().answers(
                        &old(self).spec_state(),
                        Err(answer->Err_0),
                    ));
                }
            }
        }
        Some(self.settle(answer, agent_time))
    }

    /// Plays the game to its end, and returns the match as it then stands; or
    /// the error that stopped it: an error of one of the agents, a time over
    /// the limit where the limit is enforced, or an action that its state
    /// does not offer where actions are checked.
    pub fn playout(self) -> (r: Result<Self, MatchError<G>>)
        requires
            self.wf(),
        ensures
            r matches Ok(game) ==> {
                &&& game.wf()
                &&& (game.failed() || game.spec_state().spec_is_terminal())
                &&& game.failed() == self.failed()
                &&& game.checks() == self.checks()
                &&& game.enforces() == self.enforces()
                &&& game.spec_time_limit() == self.spec_time_limit()
            },
            self.failed() || self.spec_state().spec_is_terminal() ==> (r matches Ok(game)
                && self.same_game(&game)),
            r matches Err(error) ==> self.stops_with(error),
    {
        let mut game = self;
        loop
            invariant
                game.wf(),
                game.failed() == self.failed(),
                game.checks() == self.checks(),
                game.enforces() == self.enforces(),
                game.spec_time_limit() == self.spec_time_limit(),
                self.failed() || self.spec_state().spec_is_terminal() ==> self.same_game(&game),
                forall|state: G::State, answer: Result<G::Action, MatchError<G>>| #[trigger]
                    game.spec_agent1().answers(&state, answer) == self.spec_agent1().answers(
                        &state,
                        answer,
                    ),
                forall|state: G::State, answer: Result<G::Action, MatchError<G>>| #[trigger]
                    game.spec_agent2().answers(&state, answer) == self.spec_agent2().answers(
                        &state,
                        answer,
                    ),
            decreases game.state.spec_rank(),
        {
            let ghost before = game.state;
            let ghost asked = game;
            match game.next() {
                Some(Ok(step)) => {
                    proof {
                        before.lemma_rank_decreases(step.1);
                    }
                },
                Some(Err(error)) => {
                    proof {
                        assert(asked.stops_with(error));
                        if exists|state: G::State| #[trigger]
                            asked.spec_agent1().answers(&state, Err(error)) {
                            let state = choose|state: G::State| #[trigger]
                                asked.spec_agent1().answers(&state, Err(error));
                            assert(self.spec_agent1().answers(&state, Err(error)));
                        }
                        if exists|state: G::State| #[trigger]
                            asked.spec_agent2().answers(&state, Err(error)) {
                            let state = choose|state: G::State| #[trigger]
                                asked.spec_agent2().answers(&state, Err(error));
                            assert(self.spec_agent2().answers(&state, Err(error)));
                        }
                    }
                    return Err(error);
                },
                None => {
                    return Ok(game);
                },
            }
        }
    }
}

/// Whether the first agent is to move in a state: it moves for the team
/// that starts the game.
pub open spec fn moves_first<G: Game>(state: G::State) -> bool where G::State: GwState<G> {
    state.spec_team_to_move().spec_polarity() == G::spec_starting_team().spec_polarity()
}

/// What a turn comes to, given the state, the agent's answer and the time
/// that it took, and the settings of the match.
pub open spec fn settled<G: Game>(
    state: G::State,
    answer: Result<G::Action, MatchError<G>>,
    agent_time: u128,
    check: bool,
    enforce: bool,
    time_limit: u128,
) -> Step<G> where G::State: GwState<G> {
    match answer {
        Err(error) => Err(error),
        Ok(action) => if enforce && agent_time > time_limit {
            Err(MatchError::TimeLimitExceeded { limit: time_limit, time: agent_time })
        } else if check && !state.spec_actions().contains(action) {
            Err(MatchError::IllegalAction { action, state })
        } else {
            Ok((state, action, state.spec_apply(action)))
        },
    }
}

} // verus!
