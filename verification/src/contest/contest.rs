use vstd::prelude::*;
use crate::agents::agent::Agent;
use crate::contest::clock::{elapsed_nanos, now};
use crate::contest::history::GameHistory;
use crate::contest::match_runner::{moves_first, settled, Step};
use crate::contest::player::Player;
use crate::model::error::MatchError;
use crate::model::game::Game;
use crate::model::state::GwState;
use crate::model::team::GwTeam;

verus! {

/// A contest between two players, which keeps the history of the game. The
/// first player moves for the team that starts the game.
///
/// Every action is checked, and every player is held to its time limit.
pub struct Contest<G: Game, A, B> {
    state: G::State,
    history: GameHistory<G>,
    player1: Player<G, A>,
    player2: Player<G, B>,
    encountered_error: bool,
}

impl<G, A, B> Contest<G, A, B> where
    G: Game,
    G::State: GwState<G>,
    G::Action: Clone,
    A: Agent<G>,
    B: Agent<G>,
 {
    /// The state that the game has reached.
    pub closed spec fn spec_state(&self) -> G::State {
        self.state
    }

    /// The history of the game.
    pub closed spec fn spec_history(&self) -> GameHistory<G> {
        self.history
    }

    /// The first player.
    pub closed spec fn spec_player_1(&self) -> Player<G, A> {
        self.player1
    }

    /// The second player.
    pub closed spec fn spec_player_2(&self) -> Player<G, B> {
        self.player2
    }

    /// Whether a turn has come to an error.
    pub closed spec fn failed(&self) -> bool {
        self.encountered_error
    }

    /// The agents of both players are ready.
    pub open spec fn wf(&self) -> bool {
        self.spec_player_1().spec_agent().ready() && self.spec_player_2().spec_agent().ready()
    }

    /// Creates a contest between two players, from the initial state of the
    /// game and with an empty history under the players' names.
    pub fn new(player1: Player<G, A>, player2: Player<G, B>) -> (contest: Self)
        ensures
            contest.spec_state() == G::spec_initial_state(),
            contest.spec_player_1() == player1,
            contest.spec_player_2() == player2,
            !contest.failed(),
            contest.spec_history()@.len() == 0,
            contest.spec_history().spec_agent_a() == player1.spec_name()@,
            contest.spec_history().spec_agent_b() == player2.spec_name()@,
            contest.spec_history().spec_initial_state() == G::spec_initial_state(),
    {
        let first = player1.name().to_string();
        let second = player2.name().to_string();
        Contest {
            state: G::initial_state(),
            history: GameHistory::new(first, second, G::initial_state()),
            player1,
            player2,
            encountered_error: false,
        }
    }

    /// Sets the game back to its initial state, and begins a new history,
    /// which records the state that the game had reached as the state from
    /// which it began.
    pub fn with_initial_state(self) -> (contest: Self)
        ensures
            contest.spec_state() == G::spec_initial_state(),
            contest.spec_player_1() == self.spec_player_1(),
            contest.spec_player_2() == self.spec_player_2(),
            contest.failed() == self.failed(),
            contest.spec_history()@.len() == 0,
            contest.spec_history().spec_agent_a() == self.spec_player_1().spec_name()@,
            contest.spec_history().spec_agent_b() == self.spec_player_2().spec_name()@,
            contest.spec_history().spec_initial_state() == self.spec_state(),
    {
        let first = self.player1.name().to_string();
        let second = self.player2.name().to_string();
        Contest {
            state: G::initial_state(),
            history: GameHistory::new(first, second, self.state),
            player1: self.player1,
            player2: self.player2,
            encountered_error: self.encountered_error,
        }
    }

    /// Returns the result of the game, or nothing while it is not over.
    pub fn game_result(&self) -> (r: Option<G::GameResult>)
        ensures
            r == self.spec_state().spec_game_result(),
    {
        self.state.game_result()
    }

    /// Returns the first player.
    pub fn player_1(&self) -> (player: &Player<G, A>)
        ensures
            *player == self.spec_player_1(),
    {
        &self.player1
    }

    /// Returns the second player.
    pub fn player_2(&self) -> (player: &Player<G, B>)
        ensures
            *player == self.spec_player_2(),
    {
        &self.player2
    }

    /// Returns `true` if the game is over, or if a turn has come to an error.
    pub fn is_over(&self) -> (over: bool)
        ensures
            over == (self.spec_state().spec_is_terminal() || self.failed()),
    {
        self.state.is_terminal() || self.encountered_error
    }

    /// Returns the state that the game has reached.
    pub fn state(&self) -> (state: &G::State)
        ensures
            *state == self.spec_state(),
    {
        &self.state
    }

    /// Returns the history of the game.
    pub fn history(&self) -> (history: &GameHistory<G>)
        ensures
            *history == self.spec_history(),
    {
        &self.history
    }

    /// Settles the turn that a player has answered in `agent_time`
    /// nanoseconds under the given time limit, and records it in the history
    /// if it stands.
    pub fn settle(
        &mut self,
        answer: Result<G::Action, MatchError<G>>,
        agent_time: u128,
        time_limit: u128,
    ) -> (r: Step<G>)
        requires
            !old(self).spec_state().spec_is_terminal(),
        ensures
            final(self).spec_player_1() == old(self).spec_player_1(),
            final(self).spec_player_2() == old(self).spec_player_2(),
            r == settled::<G>(old(self).spec_state(), answer, agent_time, true, true, time_limit),
            final(self).failed() == (old(self).failed() || r is Err),
            match r {
                Ok(step) => {
                    &&& final(self).spec_state() == step.2
                    &&& final(self).spec_history()@.len() == old(self).spec_history()@.len() + 1
                    &&& final(self).spec_history()@.drop_last() == old(self).spec_history()@
                    &&& cloned(step.1, final(self).spec_history()@.last().spec_action())
                    &&& final(self).spec_history()@.last().spec_state() == step.2
                    &&& final(self).spec_history()@.last().spec_agent_time() == agent_time
                },
                Err(_) => {
                    &&& final(self).spec_state() == old(self).spec_state()
                    &&& final(self).spec_history() == old(self).spec_history()
                },
            },
    {
        let action = match answer {
            Ok(action) => action,
            Err(error) => {
                self.encountered_error = true;
                return Err(error);
            },
        };
        if agent_time > time_limit {
            self.encountered_error = true;
            return Err(MatchError::TimeLimitExceeded { limit: time_limit, time: agent_time });
        }
        if !self.state.is_legal(&action) {
            self.encountered_error = true;
            let held = self.state.clone();
            proof {
                G::State::lemma_clone_exact(self.state, held);
            }
            return Err(MatchError::IllegalAction { action, state: held });
        }
        let pre = self.state.clone();
        let post = self.state.apply_action(&action);
        let reached = post.clone();
        let recorded = post.clone();
        proof {
            G::State::lemma_clone_exact(self.state, pre);
            G::State::lemma_clone_exact(post, reached);
            G::State::lemma_clone_exact(post, recorded);
        }
        self.state = post;
        self.history.add_turn(action.clone(), recorded, agent_time);
        Ok((pre, action, reached))
    }

    /// Lets the player whose turn it is take it, and settles the turn by the
    /// time that the player took. Returns nothing, with nothing changed,
    /// where the contest is over.
    pub fn next(&mut self) -> (r: Option<Step<G>>)
        requires
            old(self).wf(),
        ensures
            final(self).wf(),
            r is None <==> (old(self).failed() || old(self).spec_state().spec_is_terminal()),
            r is None ==> {
                &&& final(self).spec_state() == old(self).spec_state()
                &&& final(self).failed() == old(self).failed()
                &&& final(self).spec_history() == old(self).spec_history()
            },
            r matches Some(Ok(step)) ==> {
                &&& step.0 == old(self).spec_state()
                &&& old(self).spec_state().spec_actions().contains(step.1)
                &&& step.2 == old(self).spec_state().spec_apply(step.1)
                &&& final(self).spec_state() == step.2
                &&& !final(self).failed()
                &&& final(self).spec_history()@.len() == old(self).spec_history()@.len() + 1
                &&& final(self).spec_history()@.drop_last() == old(self).spec_history()@
                &&& cloned(step.1, final(self).spec_history()@.last().spec_action())
                &&& final(self).spec_history()@.last().spec_state() == step.2
            },
            r matches Some(Err(_)) ==> {
                &&& final(self).failed()
                &&& final(self).spec_state() == old(self).spec_state()
                &&& final(self).spec_history() == old(self).spec_history()
            },
            r is None || !moves_first::<G>(old(self).spec_state()) ==> final(self).spec_player_1()
                == old(self).spec_player_1(),
            r is None || moves_first::<G>(old(self).spec_state()) ==> final(self).spec_player_2()
                == old(self).spec_player_2(),
    {
        if self.encountered_error {
            return None;
        }
        if self.state.is_terminal() {
            return None;
        }
        let first = self.state.team_to_move().polarity() == G::starting_team().polarity();
        let start = now();
        let answer = if first {
            self.player1.get_action(&self.state)
        } else {
            self.player2.get_action(&self.state)
        };
        let agent_time = elapsed_nanos(&start);
        let time_limit = if first {
            self.player1.time_limit()
        } else {
            self.player2.time_limit()
        };
        Some(self.settle(answer, agent_time, time_limit))
    }

    /// Plays the game out between the two players, and returns its result;
    /// or the error that stopped it. The history only grows: each turn that
    /// stands is recorded behind those that were.
    pub fn play(&mut self) -> (r: Result<G::GameResult, MatchError<G>>)
        requires
            old(self).wf(),
            !old(self).failed(),
        ensures
            final(self).wf(),
            r matches Ok(result) ==> {
                &&& final(self).spec_state().spec_is_terminal()
                &&& final(self).spec_state().spec_game_result() == Some(result)
                &&& !final(self).failed()
            },
            r is Err ==> final(self).failed(),
            old(self).spec_history()@.is_prefix_of(final(self).spec_history()@),
            final(self).spec_history()@.len() == old(self).spec_history()@.len()
                ==> final(self).spec_state() == old(self).spec_state(),
            final(self).spec_history()@.len() > old(self).spec_history()@.len()
                ==> final(self).spec_history()@.last().spec_state() == final(self).spec_state(),
            old(self).spec_state().spec_is_terminal() ==> {
                &&& r is Ok
                &&& final(self).spec_state() == old(self).spec_state()
                &&& final(self).spec_history() == old(self).spec_history()
            },
    {
        loop
            invariant
                self.wf(),
                !self.failed(),
                old(self).spec_history()@.is_prefix_of(self.spec_history()@),
                self.spec_history()@.len() == old(self).spec_history()@.len() ==> self.spec_state()
                    == old(self).spec_state(),
                self.spec_history()@.len() > old(self).spec_history()@.len()
                    ==> self.spec_history()@.last().spec_state() == self.spec_state(),
                old(self).spec_state().spec_is_terminal() ==> self.spec_state() == old(
                    self,
                ).spec_state() && self.spec_history() == old(self).spec_history(),
            ensures
                self.state.spec_is_terminal(),
                old(self).spec_history()@.is_prefix_of(self.spec_history()@),
            decreases self.state.spec_rank(),
        {
            let ghost before = self.state;
            let ghost recorded = self.history@;
            match self.next() {
                Some(Ok(step)) => {
                    proof {
                        before.lemma_rank_decreases(step.1);
                        assert(self.history@.drop_last() == recorded);
                        assert(recorded.is_prefix_of(self.history@));
                    }
                },
                Some(Err(error)) => {
                    return Err(error);
                },
                None => {
                    break ;
                },
            }
        }
        proof {
            self.state.lemma_over_has_result();
        }
        match self.state.game_result() {
            Some(result) => Ok(result),
            None => {
                let held = self.state.clone();
                Err(MatchError::NoAvailableActions(held))
            },
        }
    }
}

} // verus!
