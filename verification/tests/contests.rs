use glasswing::agents::{Agent, FunctionalAgent, MonkeAgent, SimpleAgent};
use glasswing::contest::clock::NO_TIME_LIMIT;
use glasswing::contest::{
    Bridge, Contest, GameHistory, ManagedContest, Match, Pit, Player, PlayerBuilder,
};
use glasswing::games::counting_game::{
    CountingAction, CountingGame, CountingGameResult, CountingState, CountingTeam,
};
use glasswing::games::tic_tac_toe::{TicTacToe, TicTacToeAction, TicTacToeState};
use glasswing::model::TwoPlayerGameResult::Winner;
use glasswing::model::TwoPlayerTeam::{One as X, Two as O};
use glasswing::model::{BuilderError, Error, Game, GwState, MatchError};

type T3 = TicTacToe<3>;
type S3 = TicTacToeState<3>;

fn always(col: usize, row: usize) -> impl Fn(&S3) -> Result<TicTacToeAction, MatchError<T3>> {
    move |_state: &S3| Ok(TicTacToeAction::new(col, row))
}

fn failing() -> impl Fn(&S3) -> Result<TicTacToeAction, MatchError<T3>> {
    |state: &S3| Err(MatchError::NoAvailableActions(*state))
}

#[test]
fn a_pit_plays_first_actions_to_the_end() {
    let mut pit = Pit::<T3, _, _>::new(SimpleAgent::new(), SimpleAgent::new(), T3::initial_state());
    assert_eq!(pit.game_result(), None);
    let (before, action, after) = pit.next().unwrap();
    assert_eq!(before, T3::initial_state());
    assert_eq!(action, TicTacToeAction::new(0, 0));
    assert_eq!(after, before.apply_action(&action));
    assert_eq!(*pit.state(), after);
    // X: (0,0) (0,2) (1,1) (2,0); O: (0,1) (1,0) (1,2): X takes the anti-diagonal
    assert_eq!(pit.playout(), Some(Winner(X)));
    assert_eq!(pit.game_result(), Some(Winner(X)));
    assert!(pit.next().is_none());
    let _ = pit.agentA();
    let _ = pit.agentB();
    let _ = pit.agentA_mut();
    let _ = pit.agentB_mut();
}

#[test]
fn a_pit_stops_where_an_agent_fails() {
    let mut pit = Pit::<T3, _, _>::new(
        SimpleAgent::new(),
        FunctionalAgent::new(failing()),
        T3::initial_state(),
    );
    assert_eq!(pit.playout(), None);
    assert_eq!(pit.state().turn(), 1);
    let start = T3::initial_state();
    let mut pit = Pit::<T3, SimpleAgent<T3>, SimpleAgent<T3>>::new(
        SimpleAgent::new(),
        SimpleAgent::new(),
        start,
    );
    assert!(pit.advance(Err(MatchError::NoAvailableActions(start))).is_none());
    assert_eq!(*pit.state(), start);
    let step = pit.advance(Ok(TicTacToeAction::new(2, 2))).unwrap();
    assert_eq!(step.2.tile(2, 2), Some(X));
}

#[test]
fn a_match_plays_to_the_end() {
    let game = Match::<T3, _, _>::new(SimpleAgent::new(), SimpleAgent::new());
    assert_eq!(game.time_limit(), NO_TIME_LIMIT);
    assert_eq!(*game.state(), T3::initial_state());
    let played = game.playout().ok().unwrap();
    assert_eq!(played.game_result(), Some(Winner(X)));
    let _ = played.agent1();
    let _ = played.agent2();
}

#[test]
fn a_match_begins_where_it_is_told() {
    let x = Some(X);
    let o = Some(O);
    let state = S3::from_board([[x, x, None], [o, o, None], [None, None, None]], 4);
    let mut game = Match::<T3, _, _>::new(SimpleAgent::new(), SimpleAgent::new())
        .with_init_state(state)
        .with_time_limit(5_000_000)
        .check_actions(true)
        .enforce_time_limit(false);
    assert_eq!(game.time_limit(), 5_000_000);
    assert_eq!(*game.state(), state);
    let step = game.next().unwrap().ok().unwrap();
    assert_eq!(step.0, state);
    assert_eq!(step.1, TicTacToeAction::new(0, 2));
    assert_eq!(game.game_result(), Some(Winner(X)));
    assert!(game.next().is_none());
}

#[test]
fn a_checked_match_stops_at_an_illegal_action() {
    let mut game = Match::<T3, _, _>::new(
        FunctionalAgent::new(always(1, 1)),
        FunctionalAgent::new(always(1, 1)),
    )
    .check_actions(true);
    assert!(game.next().unwrap().is_ok());
    match game.next().unwrap() {
        Err(MatchError::IllegalAction { action, state }) => {
            assert_eq!(action, TicTacToeAction::new(1, 1));
            assert_eq!(state.tile(1, 1), Some(X));
        }
        _ => panic!("the second mark on one cell must be refused"),
    }
    // after an error the match takes no further turn
    assert!(game.next().is_none());
    let game = Match::<T3, _, _>::new(
        FunctionalAgent::new(always(1, 1)),
        FunctionalAgent::new(always(1, 1)),
    )
    .check_actions(true);
    assert!(matches!(game.playout(), Err(MatchError::IllegalAction { .. })));
}

#[test]
fn a_match_stops_where_an_agent_fails() {
    let game = Match::<T3, _, _>::new(SimpleAgent::new(), FunctionalAgent::new(failing()));
    assert!(matches!(game.playout(), Err(MatchError::NoAvailableActions(_))));
}

#[test]
fn settling_a_turn_holds_to_the_time_limit() {
    let start = T3::initial_state();
    let fresh = || {
        Match::<T3, SimpleAgent<T3>, SimpleAgent<T3>>::new(SimpleAgent::new(), SimpleAgent::new())
            .with_time_limit(1000)
    };
    // not enforced: the time does not matter
    let mut game = fresh();
    assert!(game.settle(Ok(TicTacToeAction::new(0, 0)), 5000).is_ok());
    // enforced: at the limit is in time, above it is not
    let mut game = fresh().enforce_time_limit(true);
    assert!(game.settle(Ok(TicTacToeAction::new(0, 0)), 1000).is_ok());
    let mut game = fresh().enforce_time_limit(true);
    match game.settle(Ok(TicTacToeAction::new(0, 0)), 1001) {
        Err(MatchError::TimeLimitExceeded { limit, time }) => {
            assert_eq!(limit, 1000);
            assert_eq!(time, 1001);
        }
        _ => panic!("an answer over the limit must be refused"),
    }
    assert_eq!(*game.state(), start);
    assert!(game.next().is_none());
    // the time comes before the action: a late illegal action is late
    let mut game = fresh().enforce_time_limit(true).check_actions(true);
    assert!(matches!(
        game.settle(Ok(TicTacToeAction::new(7, 7)), 2000),
        Err(MatchError::TimeLimitExceeded { .. })
    ));
    // the failure of the agent comes before the time
    let mut game = fresh().enforce_time_limit(true);
    assert!(matches!(
        game.settle(Err(MatchError::NoAvailableActions(start)), 2000),
        Err(MatchError::NoAvailableActions(_))
    ));
    let mut game = fresh().check_actions(true);
    assert!(matches!(
        game.settle(Ok(TicTacToeAction::new(7, 7)), 0),
        Err(MatchError::IllegalAction { .. })
    ));
}

#[test]
fn players_have_names_and_limits() {
    let player = Player::<T3, _>::new(SimpleAgent::new());
    assert_eq!(player.time_limit(), NO_TIME_LIMIT);
    let mut player = player.with_name("first").with_time_limit(77);
    assert_eq!(player.name(), "first");
    assert_eq!(player.time_limit(), 77);
    let start = T3::initial_state();
    assert_eq!(player.get_action(&start).ok(), Some(TicTacToeAction::new(0, 0)));
    assert_eq!(player.recommend_action(&start).ok(), Some(TicTacToeAction::new(0, 0)));
    let mut agent = SimpleAgent::<T3>::new();
    assert_eq!(
        Bridge::recommend_action(&mut agent, &start, 5).ok(),
        Some(TicTacToeAction::new(0, 0))
    );
}

#[test]
fn a_player_is_built_of_an_agent() {
    let built = PlayerBuilder::<T3, SimpleAgent<T3>>::new().name("nobody").time_limit(3).build();
    assert!(matches!(built, Err(BuilderError::MissingAttribute("Agent not set"))));
    let built = PlayerBuilder::<T3, _>::new().agent(SimpleAgent::new()).build().ok().unwrap();
    assert_eq!(built.time_limit(), NO_TIME_LIMIT);
    let built = PlayerBuilder::<T3, _>::new()
        .name("somebody")
        .agent(SimpleAgent::new())
        .time_limit(3)
        .build()
        .ok()
        .unwrap();
    assert_eq!(built.name(), "somebody");
    assert_eq!(built.time_limit(), 3);
}

#[test]
fn a_contest_keeps_the_history() {
    let mut contest = Contest::<CountingGame, _, _>::new(
        Player::new(SimpleAgent::new()).with_name("a"),
        Player::new(MonkeAgent::new()).with_name("b"),
    );
    assert!(!contest.is_over());
    assert_eq!(contest.game_result(), None);
    assert_eq!(contest.history().turns().len(), 0);
    assert_eq!(contest.history().agent_a(), "a");
    assert_eq!(contest.history().agent_b(), "b");
    assert_eq!(contest.player_1().name(), "a");
    assert_eq!(contest.player_2().name(), "b");
    let step = contest.next().unwrap().ok().unwrap();
    assert_eq!(step.1, CountingAction { increment: 1 });
    assert_eq!(contest.history().turns().len(), 1);
    assert_eq!(*contest.history().turn(0).action(), CountingAction { increment: 1 });
    assert_eq!(contest.history().turn(0).state().total(), 1);
    // each adds 1: the total reaches 21 on the 21st turn, and the team to move has won
    let result = contest.play().ok().unwrap();
    assert_eq!(result, CountingGameResult::Winner(CountingTeam::Two));
    assert!(contest.is_over());
    assert_eq!(contest.state().total(), 21);
    assert_eq!(contest.history().turns().len(), 21);
    assert!(contest.next().is_none());
    let again = contest.with_initial_state();
    assert_eq!(again.state().total(), 0);
    assert_eq!(again.history().turns().len(), 0);
    assert_eq!(again.history().initial_state().total(), 21);
}

#[test]
fn a_contest_holds_players_to_their_time() {
    let mut contest = Contest::<CountingGame, SimpleAgent<CountingGame>, SimpleAgent<CountingGame>>::new(
        Player::new(SimpleAgent::new()),
        Player::new(SimpleAgent::new()),
    );
    assert!(matches!(
        contest.settle(Ok(CountingAction { increment: 1 }), 11, 10),
        Err(MatchError::TimeLimitExceeded { limit: 10, time: 11 })
    ));
    assert!(contest.is_over());
    assert_eq!(contest.history().turns().len(), 0);
    let mut contest = Contest::<CountingGame, SimpleAgent<CountingGame>, SimpleAgent<CountingGame>>::new(
        Player::new(SimpleAgent::new()),
        Player::new(SimpleAgent::new()),
    );
    assert!(matches!(
        contest.settle(Ok(CountingAction { increment: 9 }), 1, 10),
        Err(MatchError::IllegalAction { .. })
    ));
    let mut contest = Contest::<CountingGame, SimpleAgent<CountingGame>, SimpleAgent<CountingGame>>::new(
        Player::new(SimpleAgent::new()),
        Player::new(SimpleAgent::new()),
    );
    assert!(contest.settle(Ok(CountingAction { increment: 2 }), 10, 10).is_ok());
    assert_eq!(contest.history().turn(0).agent_time(), 10);
    assert_eq!(contest.state().total(), 2);
}

#[test]
fn a_managed_contest_records_every_turn() {
    let mut contest = ManagedContest::new_with_ids(
        CountingGame::initial_state(),
        MonkeAgent::<CountingGame>::new(),
        MonkeAgent::<CountingGame>::new(),
        "first".to_string(),
        "second".to_string(),
    );
    // the names are kept the other way round
    assert_eq!(contest.history().agent_a(), "second");
    assert_eq!(contest.history().agent_b(), "first");
    assert_eq!(contest.game_result(), None);
    let result = contest.play();
    assert_eq!(result, Some(CountingGameResult::Winner(CountingTeam::Two)));
    assert_eq!(contest.history().turns().len(), 21);
    assert_eq!(contest.state().total(), 21);
    assert!(contest.next().is_none());
    let _ = contest.agent_a();
    let _ = contest.agent_b();
    let start = CountingState { total: 19, turn: 0 };
    let mut contest = ManagedContest::new(
        start,
        MonkeAgent::<CountingGame>::new(),
        MonkeAgent::<CountingGame>::new(),
    );
    assert_eq!(contest.history().agent_a(), "MonkeAgent");
    assert_eq!(contest.history().agent_b(), "MonkeAgent");
    assert!(contest.advance(Err(MatchError::NoAvailableActions(start)), 5).is_none());
    assert_eq!(contest.history().turns().len(), 0);
    let step = contest.advance(Ok(CountingAction { increment: 3 }), 5).unwrap();
    assert_eq!(step.2.total(), 22);
    assert_eq!(contest.history().turn(0).agent_time(), 5);
}

#[test]
fn a_history_grows_turn_by_turn() {
    let start = CountingGame::initial_state();
    let mut history = GameHistory::<CountingGame>::new("a".to_string(), "b".to_string(), start);
    assert!(history.turns().is_empty());
    history.add_turn(CountingAction { increment: 2 }, CountingState { total: 2, turn: 1 }, 9);
    history.add_turn(CountingAction { increment: 3 }, CountingState { total: 5, turn: 2 }, 8);
    assert_eq!(history.turns().len(), 2);
    assert_eq!(history.turn(1).action().increment, 3);
    assert_eq!(history.turn(1).state().total(), 5);
    assert_eq!(history.turn(1).agent_time(), 8);
    assert_eq!(history.initial_state().total(), 0);
}

#[test]
fn the_plain_errors_are_told_apart() {
    assert_ne!(Error::Timeout, Error::InvalidAction);
    assert_eq!(Error::Other("x"), Error::Other("x"));
    assert_eq!(BuilderError::MissingAttribute("a"), BuilderError::MissingAttribute("a"));
    let mut agent = SimpleAgent::<T3>::new();
    assert!(agent.select_action(&T3::initial_state()).is_ok());
}
