use glasswing::agents::negamax::negate;
use glasswing::agents::ordering::sort_actions;
use glasswing::agents::{
    Agent, Evaluator, FunctionalAgent, MaximisingAgent, MiniMax, MiniMaxAgent, MonkeAgent,
    NegaMax, NegaMaxAgent, RandomAgent, SimpleAgent,
};
use glasswing::games::counting_game::{
    CountingAction, CountingGame, CountingGameEvaluator, CountingState, CountingTeam,
};
use glasswing::games::random_counting::{RCEval, RCState, RandomCounting};
use glasswing::games::tic_tac_toe::{TicTacToe, TicTacToeAction, TicTacToeEvaluator, TicTacToeState};
use glasswing::games::tictactoe::{TTTHeuristic, TTTState, TicTacToe as BitTicTacToe};
use glasswing::model::TwoPlayerTeam::{One as X, Two as O};
use glasswing::model::{Error, Game, GwState, GwTeam, MatchError, Polarity, Team, TwoPlayerTeam};
use rand::rngs::StdRng;
use rand::SeedableRng;

type T3 = TicTacToe<3>;
type S3 = TicTacToeState<3>;

/// Minimax without pruning and without ordering, written out plainly.
fn plain_minimax(state: &S3, depth: u32) -> i32 {
    let mut evaluator = TicTacToeEvaluator;
    if depth == 0 || state.is_terminal() {
        return Evaluator::<T3>::evaluate(&mut evaluator, state).unwrap();
    }
    let actions = state.actions();
    let values = actions
        .iter()
        .map(|action| plain_minimax(&state.apply_action(action), depth - 1));
    match state.team_to_move().polarity() {
        Polarity::Positive => values.fold(i32::MIN, i32::max),
        Polarity::Negative => values.fold(i32::MAX, i32::min),
    }
}

/// Negamax without pruning and without ordering, written out plainly.
fn plain_negamax(state: &S3, depth: u32) -> i32 {
    let mut evaluator = TicTacToeEvaluator;
    if depth == 0 || state.is_terminal() {
        return Evaluator::<T3>::evaluate_for(&mut evaluator, state, &state.team_to_move()).unwrap();
    }
    state
        .actions()
        .iter()
        .map(|action| -plain_negamax(&state.apply_action(action), depth - 1))
        .fold(-i32::MAX, i32::max)
}

fn sample_states() -> Vec<S3> {
    let x = Some(X);
    let o = Some(O);
    vec![
        T3::initial_state(),
        S3::from_board([[x, None, None], [None, None, None], [None, None, None]], 1),
        S3::from_board([[x, None, None], [None, o, None], [None, None, None]], 2),
        S3::from_board([[x, x, None], [o, o, None], [None, None, None]], 4),
        S3::from_board([[x, x, None], [o, None, None], [None, None, o]], 4),
        S3::from_board([[x, o, x], [None, o, None], [None, None, None]], 4),
        S3::from_board([[x, o, x], [x, o, None], [None, None, None]], 5),
        S3::from_board([[x, o, x], [x, o, o], [o, x, None]], 8),
        S3::from_board([[x, o, x], [x, o, o], [o, x, x]], 9),
        S3::from_board([[x, x, x], [o, o, None], [None, None, None]], 5),
    ]
}

#[test]
fn pruning_keeps_the_value() {
    for state in sample_states() {
        for depth in 0..=9 {
            if depth >= 8 && state.turn() == 0 {
                continue;
            }
            let mut search = MiniMax::<T3, _>::new(depth, TicTacToeEvaluator);
            assert_eq!(search.evaluate(&state).unwrap(), plain_minimax(&state, depth));
            assert_eq!(search.value(&state, depth).unwrap(), plain_minimax(&state, depth));
            assert_eq!(
                search.minimax(&state, depth, i32::MIN, i32::MAX).unwrap(),
                plain_minimax(&state, depth)
            );
        }
    }
}

#[test]
fn tic_tac_toe_is_a_draw() {
    let mut search = MiniMax::<T3, _>::new(9, TicTacToeEvaluator);
    assert_eq!(search.evaluate(&T3::initial_state()).unwrap(), 0);
    assert!(search.states_evaluated > 0);
    let mut search = NegaMax::<T3, _>::new(9, TicTacToeEvaluator);
    assert_eq!(search.evaluate_for(&T3::initial_state(), &X).unwrap(), 0);
    assert_eq!(search.evaluate_for(&T3::initial_state(), &O).unwrap(), 0);
}

#[test]
fn a_window_bounds_what_it_does_not_hold() {
    let x = Some(X);
    let o = Some(O);
    // X to move wins at once: the value is 100
    let state = S3::from_board([[x, x, None], [o, o, None], [None, None, None]], 4);
    let mut search = MiniMax::<T3, _>::new(3, TicTacToeEvaluator);
    assert_eq!(search.minimax(&state, 3, -1000, 1000).unwrap(), 100);
    // above the window: a lower bound
    let found = search.minimax(&state, 3, -10, 10).unwrap();
    assert!(found >= 10 && found <= 100);
    // below the window: an upper bound
    let found = search.minimax(&state, 3, 200, 300).unwrap();
    assert!(found <= 200 && found >= 100);
    // an empty window still sees the first action, which here wins
    assert_eq!(search.minimax(&state, 3, 300, 200).unwrap(), 100);
    assert_eq!(search.minimax(&state, 3, 0, 0).unwrap(), 100);
    let mut search = NegaMax::<T3, _>::new(3, TicTacToeEvaluator);
    assert_eq!(search.negamax(&state, 3, -1000, 1000).unwrap(), 100);
    assert_eq!(search.negamax(&state, 3, 300, 200).unwrap(), 100);
    let found = search.negamax(&state, 3, -10, 10).unwrap();
    assert!(found >= 10 && found <= 100);
    let found = search.negamax(&state, 3, 200, 300).unwrap();
    assert!(found <= 200 && found >= 100);
}

#[test]
fn negamax_agrees_with_minimax() {
    for state in sample_states() {
        for depth in 0..=9 {
            if depth >= 8 && state.turn() == 0 {
                continue;
            }
            let mut mini = MiniMax::<T3, _>::new(depth, TicTacToeEvaluator);
            let mut nega = NegaMax::<T3, _>::new(depth, TicTacToeEvaluator);
            let absolute = mini.evaluate(&state).unwrap();
            assert_eq!(nega.evaluate_for(&state, &X).unwrap(), absolute);
            assert_eq!(nega.evaluate_for(&state, &O).unwrap(), -absolute);
            assert_eq!(nega.value(&state, depth).unwrap(), plain_negamax(&state, depth));
            let sign = state.team_to_move().polarity().sign();
            assert_eq!(nega.value(&state, depth).unwrap(), sign * absolute);
        }
    }
}

#[test]
fn negation_saturates() {
    assert_eq!(negate(5), -5);
    assert_eq!(negate(-5), 5);
    assert_eq!(negate(0), 0);
    assert_eq!(negate(i32::MAX), -i32::MAX);
    assert_eq!(negate(i32::MIN), i32::MAX);
}

#[test]
fn moves_are_ordered_by_descending_score() {
    let x = Some(X);
    let o = Some(O);
    // X to move; the free cells are (0,2) (1,2) (2,0) (2,1) (2,2); marking (0,2) wins
    let state = S3::from_board([[x, x, None], [o, o, None], [None, None, None]], 4);
    let actions = state.actions();
    assert_eq!(actions.len(), 5);
    let mut evaluator = TicTacToeEvaluator;
    let order = sort_actions::<T3, _>(&state, &actions, &mut evaluator, &X).unwrap();
    assert_eq!(order.len(), 5);
    let visits: Vec<usize> = (0..5).map(|k| order.at(k)).collect();
    assert_eq!(visits, vec![0, 1, 2, 3, 4]);
    // for O, the winning move of X is the worst and comes last: the others tie
    let order = sort_actions::<T3, _>(&state, &actions, &mut evaluator, &O).unwrap();
    let visits: Vec<usize> = (0..5).map(|k| order.at(k)).collect();
    assert_eq!(visits, vec![1, 2, 3, 4, 0]);
    // O to move: blocking at (0,2) scores 0 like any other move but (1,2), which wins
    let state = S3::from_board([[x, x, None], [o, o, None], [x, None, None]], 5);
    let actions = state.actions();
    let order = sort_actions::<T3, _>(&state, &actions, &mut evaluator, &O).unwrap();
    let visits: Vec<usize> = (0..actions.len()).map(|k| order.at(k)).collect();
    assert_eq!(visits, vec![1, 0, 2, 3]);
    assert_eq!(actions[1], TicTacToeAction::new(1, 2));
}

#[test]
fn the_maximising_agent_takes_the_earliest_best() {
    let x = Some(X);
    let o = Some(O);
    let state = S3::from_board([[x, x, None], [o, o, None], [None, None, None]], 4);
    let mut agent = MaximisingAgent::<T3, _>::new(TicTacToeEvaluator);
    assert_eq!(agent.select_action(&state).ok(), Some(TicTacToeAction::new(0, 2)));
    // nothing wins at once on the empty board: the first action is kept
    let state = T3::initial_state();
    assert_eq!(agent.select_action(&state).ok(), Some(TicTacToeAction::new(0, 0)));
    let _ = agent.evaluator();
    let _ = agent.evaluator_mut();
}

#[test]
fn search_agents_take_the_win_and_block_the_loss() {
    let x = Some(X);
    let o = Some(O);
    let wins = S3::from_board([[x, x, None], [o, o, None], [None, None, None]], 4);
    let mut minimax = MiniMaxAgent::<T3, _>::new(10, TicTacToeEvaluator);
    let mut negamax = NegaMaxAgent::<T3, _>::new(10, TicTacToeEvaluator);
    assert_eq!(minimax.select_action(&wins).ok(), Some(TicTacToeAction::new(0, 2)));
    assert_eq!(negamax.select_action(&wins).ok(), Some(TicTacToeAction::new(0, 2)));
    // O must block the row of X
    let blocks = S3::from_board([[x, x, None], [None, o, None], [None, None, None]], 3);
    assert_eq!(minimax.select_action(&blocks).ok(), Some(TicTacToeAction::new(0, 2)));
    assert_eq!(negamax.select_action(&blocks).ok(), Some(TicTacToeAction::new(0, 2)));
    // all moves draw from the empty board: the earliest is kept
    let start = T3::initial_state();
    assert_eq!(minimax.select_action(&start).ok(), Some(TicTacToeAction::new(0, 0)));
    assert_eq!(negamax.select_action(&start).ok(), Some(TicTacToeAction::new(0, 0)));
    assert_eq!(minimax.minimax(&wins, 3, i32::MIN, i32::MAX).unwrap(), 100);
    assert_eq!(negamax.negamax(&wins, 3, -i32::MAX, i32::MAX).unwrap(), 100);
}

#[test]
fn agents_fail_where_there_is_no_action() {
    // while the die is to be rolled the race is not over, and no team can act
    let idle = RCState { first: 3, second: 4, turn: 0, roll: None };
    assert!(!idle.is_terminal());
    assert!(idle.actions().is_empty());
    let mut simple = SimpleAgent::<RandomCounting>::new();
    assert!(matches!(simple.select_action(&idle), Err(MatchError::NoAvailableActions(_))));
    let mut monke = MonkeAgent::<RandomCounting>::new();
    assert!(matches!(monke.select_action(&idle), Err(MatchError::NoAvailableActions(_))));
    let mut random = RandomAgent::<RandomCounting>::new(StdRng::seed_from_u64(1));
    assert!(matches!(random.select_action(&idle), Err(MatchError::NoAvailableActions(_))));
    let mut maximising = MaximisingAgent::<RandomCounting, _>::new(RCEval);
    assert!(matches!(maximising.select_action(&idle), Err(MatchError::NoAvailableActions(_))));
    let mut minimax = MiniMaxAgent::<RandomCounting, _>::new(3, RCEval);
    assert!(matches!(minimax.select_action(&idle), Err(MatchError::NoAvailableActions(_))));
    let mut negamax = NegaMaxAgent::<RandomCounting, _>::new(3, RCEval);
    match negamax.select_action(&idle) {
        Err(MatchError::NoAvailableActions(state)) => assert_eq!(state, idle),
        _ => panic!("there is no action to choose"),
    }
}

#[test]
fn simple_agents_take_the_first_action() {
    let state = T3::initial_state();
    let mut simple = SimpleAgent::<T3>::new();
    assert_eq!(simple.select_action(&state).ok(), Some(TicTacToeAction::new(0, 0)));
    let mut monke = MonkeAgent::<T3>::default();
    assert_eq!(monke.select_action(&state).ok(), Some(TicTacToeAction::new(0, 0)));
    assert_eq!(MonkeAgent::<T3>::identifier(), "MonkeAgent");
    let mut simple = SimpleAgent::<CountingGame>::default();
    let start = CountingGame::initial_state();
    assert_eq!(simple.select_action(&start).ok(), Some(CountingAction { increment: 1 }));
}

#[test]
fn the_random_agent_draws_an_action_of_the_state() {
    let x = Some(X);
    let o = Some(O);
    let state = S3::from_board([[x, x, None], [o, o, None], [None, None, None]], 4);
    let mut random = RandomAgent::<T3>::new(StdRng::seed_from_u64(7));
    let mut seen = [false; 5];
    for _ in 0..200 {
        let action = random.select_action(&state).ok().unwrap();
        assert!(state.is_legal(&action));
        let position = state.actions().iter().position(|a| *a == action).unwrap();
        seen[position] = true;
    }
    // a generator that handed back its bound or always the same would not reach all five
    assert!(seen.iter().all(|s| *s));
}

#[test]
fn the_random_agent_draws_from_the_generator_it_was_given() {
    let state = T3::initial_state();
    let mut one = RandomAgent::<T3>::new(StdRng::seed_from_u64(11));
    let mut other = RandomAgent::<T3>::new(StdRng::seed_from_u64(11));
    for _ in 0..50 {
        let first = one.select_action(&state).ok().unwrap();
        let second = other.select_action(&state).ok().unwrap();
        assert!(first == second);
    }
}

#[test]
fn a_functional_agent_asks_its_function() {
    let mut agent = FunctionalAgent::<T3, _>::new(|state: &S3| {
        state
            .actions()
            .pop()
            .ok_or(MatchError::NoAvailableActions(*state))
    });
    let state = T3::initial_state();
    assert_eq!(agent.select_action(&state).ok(), Some(TicTacToeAction::new(2, 2)));
}

#[test]
fn the_counting_evaluator_scores_for_the_team_to_move() {
    let mut evaluator = CountingGameEvaluator;
    let state = CountingState { total: 7, turn: 2 };
    assert_eq!(evaluator.evaluate_for(&state, &CountingTeam::One).unwrap(), 7);
    assert_eq!(evaluator.evaluate_for(&state, &CountingTeam::Two).unwrap(), -7);
    assert_eq!(evaluator.evaluate(&state).unwrap(), 7);
    let state = CountingState { total: 7, turn: 3 };
    assert_eq!(evaluator.evaluate(&state).unwrap(), -7);
    let over = CountingState { total: 21, turn: 8 };
    assert_eq!(evaluator.evaluate(&over).unwrap(), 100);
    let over = CountingState { total: 22, turn: 9 };
    assert_eq!(evaluator.evaluate(&over).unwrap(), -100);
    assert_eq!(
        evaluator.evaluate_action_for(
            &CountingState { total: 7, turn: 2 },
            &CountingAction { increment: 3 },
            &CountingTeam::One
        ).unwrap(),
        -10
    );
}

#[test]
fn the_bitboard_heuristic_scores_outcomes() {
    let mut heuristic = TTTHeuristic;
    let start: TTTState = BitTicTacToe::initial_state();
    assert_eq!(heuristic.evaluate_for(&start, &Team::One).unwrap(), 0);
    let mut state = start;
    // X: 0, O: 3, X: 1, O: 4, X: 2 wins the first row
    for position in [0usize, 2, 0, 1, 0] {
        let action = state.actions()[position];
        state = state.apply_action(&action);
    }
    assert!(state.is_terminal());
    assert_eq!(heuristic.evaluate_for(&state, &Team::One).unwrap(), 100);
    assert_eq!(heuristic.evaluate_for(&state, &Team::Two).unwrap(), -100);
    assert_eq!(heuristic.evaluate(&state).unwrap(), 100);
    let mut search = MiniMax::<BitTicTacToe, _>::new(9, TTTHeuristic);
    // a draw is worth 1 to the maximizing team
    assert_eq!(search.evaluate(&start).unwrap(), 1);
}

#[test]
fn teams_of_two() {
    assert_eq!(TwoPlayerTeam::One.opponent(), TwoPlayerTeam::Two);
    assert_eq!(TwoPlayerTeam::Two.opponent(), TwoPlayerTeam::One);
    assert_eq!(TwoPlayerTeam::One.polarity(), Polarity::Positive);
    assert_eq!(TwoPlayerTeam::Two.polarity(), Polarity::Negative);
    assert_eq!(TwoPlayerTeam::One.nth(0), TwoPlayerTeam::One);
    assert_eq!(TwoPlayerTeam::One.nth(1), TwoPlayerTeam::Two);
    assert_eq!(TwoPlayerTeam::One.nth(4), TwoPlayerTeam::One);
    assert_eq!(TwoPlayerTeam::Two.nth(7), TwoPlayerTeam::One);
}

/// Scores as the tic-tac-toe evaluator does, and fails on a board with a
/// mark in the last cell.
struct Unreliable;

impl Evaluator<T3> for Unreliable {
    fn scoring(&self) -> vstd::prelude::FnSpec<(S3, TwoPlayerTeam), i32> {
        unreachable!()
    }

    fn failures(&self) -> vstd::set::Set<Error> {
        unreachable!()
    }

    fn evaluate_for(&mut self, state: &S3, team: &TwoPlayerTeam) -> Result<i32, Error> {
        if state.tile(2, 2).is_some() {
            Err(Error::EvaluationError)
        } else {
            Evaluator::<T3>::evaluate_for(&mut TicTacToeEvaluator, state, team)
        }
    }
}

#[test]
fn an_evaluator_failure_is_handed_on_unchanged() {
    let start = T3::initial_state();
    let marked = start.apply_action(&TicTacToeAction::new(2, 2));
    let mut evaluator = Unreliable;
    assert_eq!(Evaluator::<T3>::evaluate(&mut evaluator, &start), Ok(0));
    assert_eq!(Evaluator::<T3>::evaluate(&mut evaluator, &marked), Err(Error::EvaluationError));
    assert_eq!(
        evaluator.evaluate_action_for(&start, &TicTacToeAction::new(2, 2), &X),
        Err(Error::EvaluationError)
    );
    assert!(sort_actions::<T3, _>(&start, &start.actions(), &mut evaluator, &X).is_err());
    let mut mini = MiniMax::<T3, _>::new(2, Unreliable);
    assert_eq!(mini.minimax(&marked, 0, -5, 5), Err(Error::EvaluationError));
    assert_eq!(mini.minimax(&start, 2, i32::MIN, i32::MAX), Err(Error::EvaluationError));
    assert_eq!(mini.value(&start, 2), Err(Error::EvaluationError));
    assert_eq!(mini.evaluate(&start), Err(Error::EvaluationError));
    assert_eq!(mini.value(&start, 0), Ok(0));
    let mut nega = NegaMax::<T3, _>::new(2, Unreliable);
    assert_eq!(nega.negamax(&start, 2, -i32::MAX, i32::MAX), Err(Error::EvaluationError));
    assert_eq!(nega.value(&start, 0), Ok(0));
    assert_eq!(nega.evaluate_for(&start, &O), Err(Error::EvaluationError));
    let mut agent = MiniMaxAgent::<T3, _>::new(2, Unreliable);
    assert_eq!(agent.minimax(&start, 1, i32::MIN, i32::MAX), Err(Error::EvaluationError));
    assert!(matches!(
        agent.select_action(&start),
        Err(MatchError::EvaluationFailed(Error::EvaluationError))
    ));
    let mut agent = NegaMaxAgent::<T3, _>::new(2, Unreliable);
    assert!(matches!(
        agent.select_action(&start),
        Err(MatchError::EvaluationFailed(Error::EvaluationError))
    ));
    let mut agent = MaximisingAgent::<T3, _>::new(Unreliable);
    assert!(matches!(
        agent.select_action(&start),
        Err(MatchError::EvaluationFailed(Error::EvaluationError))
    ));
}

#[test]
fn agents_choose_on_a_board_on_which_the_game_is_over() {
    let x = Some(X);
    let o = Some(O);
    let won = S3::from_board([[x, x, x], [o, o, None], [None, None, None]], 5);
    assert!(won.is_terminal());
    assert_eq!(won.actions().len(), 4);
    let first = won.actions()[0];
    assert_eq!(SimpleAgent::<T3>::new().select_action(&won).ok(), Some(first));
    assert_eq!(MonkeAgent::<T3>::new().select_action(&won).ok(), Some(first));
    let chosen = MaximisingAgent::<T3, _>::new(TicTacToeEvaluator).select_action(&won).ok().unwrap();
    assert_eq!(chosen, first);
    let chosen = MiniMaxAgent::<T3, _>::new(3, TicTacToeEvaluator).select_action(&won).ok().unwrap();
    assert!(won.is_legal(&chosen));
    let chosen = NegaMaxAgent::<T3, _>::new(3, TicTacToeEvaluator).select_action(&won).ok().unwrap();
    assert!(won.is_legal(&chosen));
    let after = won.apply_action(&first);
    assert!(after.is_terminal());
    assert_eq!(after.actions().len(), 3);
}
