use glasswing::agents::expectiminimax::mean_of;
use glasswing::agents::{
    Agent, Evaluator, ExpectiMiniMaxAgent, MiniMax, NegaMax, ProbabilisticState,
};
use glasswing::games::random_counting::{MoveForwardAction, RCEval, RCState, RandomCounting};
use glasswing::model::TwoPlayerGameResult::Winner;
use glasswing::model::TwoPlayerTeam::{One, Two};
use glasswing::model::{Game, GwState, MatchError, Polarity, GwTeam};
use glasswing::perft::report::{scale, Magnitude, PerftResult, Throughput};
use glasswing::perft::perft_timed;
use glasswing::games::tic_tac_toe::TicTacToe;

/// The expected value written out plainly.
fn plain_expected(state: &RCState, depth: u32) -> i32 {
    let mut evaluator = RCEval;
    if depth == 0 || state.is_terminal() {
        return evaluator.evaluate(state).unwrap();
    }
    if state.is_random_state() {
        let mut sum: i128 = 0;
        let mut weight: i128 = 0;
        for (next, share) in state.substates() {
            sum += plain_expected(&next, depth - 1) as i128 * share as i128;
            weight += share as i128;
        }
        return if weight == 0 { 0 } else { (sum / weight) as i32 };
    }
    let actions = state.actions();
    let values = actions
        .iter()
        .map(|action| plain_expected(&state.apply_action(action), depth - 1));
    match state.team_to_move().polarity() {
        Polarity::Positive => values.fold(i32::MIN, i32::max),
        Polarity::Negative => values.fold(i32::MAX, i32::min),
    }
}

#[test]
fn the_mean_rounds_towards_zero() {
    assert_eq!(mean_of(401, 6), 66);
    assert_eq!(mean_of(-401, 6), -66);
    assert_eq!(mean_of(0, 6), 0);
    assert_eq!(mean_of(5, 0), 0);
    assert_eq!(mean_of(-5, 6), 0);
    assert_eq!(mean_of(600, 6), 100);
}

#[test]
fn chance_is_averaged() {
    let mut agent = ExpectiMiniMaxAgent::<RandomCounting, _>::new(3, RCEval);
    // a roll of 1 leaves the pieces level, a 2 puts the first one ahead, 3 and more win
    let state = RCState { first: 97, second: 98, turn: 0, roll: None };
    assert_eq!(agent.expectiminimax(&state, 2).unwrap(), 66);
    // the same for the second team, which minimizes
    let state = RCState { first: 98, second: 97, turn: 1, roll: None };
    assert_eq!(agent.expectiminimax(&state, 2).unwrap(), -66);
    // whatever the roll, one step wins
    let state = RCState { first: 99, second: 50, turn: 0, roll: None };
    assert_eq!(agent.expectiminimax(&state, 2).unwrap(), 100);
    // at depth 0 the state is rated as it stands
    let state = RCState { first: 30, second: 50, turn: 0, roll: None };
    assert_eq!(agent.expectiminimax(&state, 0).unwrap(), -20);
    // a finished race is rated whatever the depth
    let state = RCState { first: 101, second: 50, turn: 1, roll: None };
    assert_eq!(agent.expectiminimax(&state, 5).unwrap(), 100);
}

#[test]
fn the_search_is_the_plain_recursion() {
    let mut agent = ExpectiMiniMaxAgent::<RandomCounting, _>::new(3, RCEval);
    let states = [
        RandomCounting::initial_state(),
        RCState { first: 90, second: 95, turn: 0, roll: None },
        RCState { first: 90, second: 95, turn: 1, roll: Some(4) },
        RCState { first: 96, second: 97, turn: 1, roll: None },
        RCState { first: 96, second: 97, turn: 0, roll: Some(6) },
        RCState { first: 99, second: 99, turn: 0, roll: Some(1) },
    ];
    for state in states {
        for depth in 0..=5 {
            assert_eq!(agent.expectiminimax(&state, depth).unwrap(), plain_expected(&state, depth));
        }
    }
}

#[test]
fn the_agent_moves_as_far_as_pays() {
    let mut agent = ExpectiMiniMaxAgent::<RandomCounting, _>::new(1, RCEval);
    let state = RCState { first: 10, second: 10, turn: 0, roll: Some(5) };
    assert_eq!(agent.select_action(&state).ok(), Some(MoveForwardAction { steps: 5 }));
    let state = RCState { first: 10, second: 10, turn: 1, roll: Some(5) };
    assert_eq!(agent.select_action(&state).ok(), Some(MoveForwardAction { steps: 5 }));
    // with a roll of 1 there is one action
    let state = RCState { first: 10, second: 10, turn: 0, roll: Some(1) };
    assert_eq!(agent.select_action(&state).ok(), Some(MoveForwardAction { steps: 1 }));
    // while the die is to be rolled no team can act
    let state = RCState { first: 10, second: 10, turn: 0, roll: None };
    assert!(matches!(agent.select_action(&state), Err(MatchError::NoAvailableActions(_))));
}

#[test]
fn the_race_moves_by_the_die() {
    let start = RandomCounting::initial_state();
    assert_eq!(RandomCounting::starting_team(), One);
    assert!(start.is_random_state());
    assert!(start.actions().is_empty());
    let outcomes = start.substates();
    assert_eq!(outcomes.len(), 6);
    for (roll, (next, weight)) in outcomes.iter().enumerate() {
        assert_eq!(next.roll, Some(roll as u32 + 1));
        assert_eq!(*weight, 1);
        assert!(!next.is_random_state());
    }
    let rolled = outcomes[3].0;
    assert_eq!(
        rolled.actions(),
        vec![MoveForwardAction { steps: 1 }, MoveForwardAction { steps: 4 }]
    );
    assert!(rolled.is_legal(&MoveForwardAction { steps: 4 }));
    assert!(!rolled.is_legal(&MoveForwardAction { steps: 3 }));
    assert!(!start.is_legal(&MoveForwardAction { steps: 1 }));
    let moved = rolled.apply_action(&MoveForwardAction { steps: 4 });
    assert_eq!(moved, RCState { first: 4, second: 0, turn: 1, roll: None });
    assert_eq!(moved.team_to_move(), Two);
    let moved = RCState { first: 4, second: 0, turn: 1, roll: Some(2) }
        .apply_action(&MoveForwardAction { steps: 2 });
    assert_eq!(moved, RCState { first: 4, second: 2, turn: 2, roll: None });
    let won = RCState { first: 98, second: 99, turn: 1, roll: Some(3) }
        .apply_action(&MoveForwardAction { steps: 3 });
    assert!(won.is_terminal());
    assert_eq!(won.game_result(), Some(Winner(Two)));
    let mut evaluator = RCEval;
    assert_eq!(evaluator.evaluate_for(&won, &Two).unwrap(), 100);
    assert_eq!(evaluator.evaluate_for(&won, &One).unwrap(), -100);
    assert_eq!(evaluator.evaluate_for(&moved, &One).unwrap(), 2);
    assert_eq!(evaluator.evaluate_for(&moved, &Two).unwrap(), -2);
}

#[test]
fn rates_are_scaled_by_thousands() {
    assert_eq!(scale(0), Throughput { whole: 0, thousandths: 0, magnitude: Magnitude::Unit });
    assert_eq!(scale(999), Throughput { whole: 999, thousandths: 0, magnitude: Magnitude::Unit });
    assert_eq!(scale(1_000), Throughput { whole: 1, thousandths: 0, magnitude: Magnitude::Kilo });
    assert_eq!(scale(1_234), Throughput { whole: 1, thousandths: 234, magnitude: Magnitude::Kilo });
    assert_eq!(
        scale(12_345_678),
        Throughput { whole: 12, thousandths: 345, magnitude: Magnitude::Mega }
    );
    assert_eq!(
        scale(999_999_999),
        Throughput { whole: 999, thousandths: 999, magnitude: Magnitude::Mega }
    );
    assert_eq!(scale(5_000_000_000).magnitude, Magnitude::Giga);
    assert_eq!(scale(5_000_000_000_000).magnitude, Magnitude::Tera);
    assert_eq!(scale(5_000_000_000_000_000).magnitude, Magnitude::Peta);
    assert_eq!(
        scale(u64::MAX),
        Throughput { whole: 18, thousandths: 446, magnitude: Magnitude::Exa }
    );
    assert_eq!(Magnitude::Unit.symbol(), "");
    assert_eq!(Magnitude::Kilo.symbol(), "K");
    assert_eq!(Magnitude::Mega.symbol(), "M");
    assert_eq!(Magnitude::Giga.symbol(), "G");
    assert_eq!(Magnitude::Tera.symbol(), "T");
    assert_eq!(Magnitude::Peta.symbol(), "P");
    assert_eq!(Magnitude::Exa.symbol(), "E");
    assert_eq!(Magnitude::Giga.factor(), 1_000_000_000);
}

#[test]
fn a_run_reports_its_rate() {
    let run = PerftResult { nodes: 255_168, nanos: 2_000_000 };
    assert_eq!(run.nodes(), 255_168);
    assert_eq!(run.nanos(), 2_000_000);
    // 255168 nodes in two milliseconds are 127584000 in a second
    assert_eq!(run.nps(), 127_584_000);
    assert_eq!(
        run.throughput(),
        Throughput { whole: 127, thousandths: 584, magnitude: Magnitude::Mega }
    );
    assert_eq!(PerftResult { nodes: 5, nanos: 0 }.nps(), u64::MAX);
    assert_eq!(PerftResult { nodes: u64::MAX, nanos: 1 }.nps(), u64::MAX);
    assert_eq!(PerftResult { nodes: 7, nanos: 3_000_000_000 }.nps(), 2);
    let timed = perft_timed::<TicTacToe<3>>(&TicTacToe::<3>::initial_state(), 5);
    assert_eq!(timed.nodes(), 15120);
}

#[test]
fn a_state_without_actions_is_worth_the_worst() {
    // while the die is to be rolled no team can act, and the race is not over
    let first_to_move = RCState { first: 10, second: 10, turn: 0, roll: None };
    let second_to_move = RCState { first: 10, second: 10, turn: 1, roll: None };
    let mut mini = MiniMax::<RandomCounting, _>::new(2, RCEval);
    assert_eq!(mini.evaluate(&first_to_move).unwrap(), i32::MIN);
    assert_eq!(mini.evaluate(&second_to_move).unwrap(), i32::MAX);
    assert_eq!(mini.minimax(&first_to_move, 1, -5, 5).unwrap(), i32::MIN);
    let mut nega = NegaMax::<RandomCounting, _>::new(2, RCEval);
    assert_eq!(nega.value(&first_to_move, 2).unwrap(), -i32::MAX);
    assert_eq!(nega.value(&second_to_move, 2).unwrap(), -i32::MAX);
    assert_eq!(nega.evaluate_for(&first_to_move, &Two).unwrap(), i32::MAX);
}
