use glasswing::agents::Evaluator;
use glasswing::games::tic_tac_toe::{TicTacToe, TicTacToeEvaluator, TicTacToeState};
use glasswing::model::TwoPlayerGameResult::{Draw, Winner};
use glasswing::model::TwoPlayerTeam::{One as X, Two as O};
use glasswing::model::{Game, GwState};
use glasswing::perft;

fn check_terminal_states() {
    let x = Some(X);
    let o = Some(O);

    let state = TicTacToeState::from_board(
        [[None, None, None], [None, None, None], [None, None, None]],
        0,
    );

    assert_eq!(state.game_result(), None);
    assert!(!state.is_terminal());

    let state = TicTacToeState::from_board([[None, None, x], [None, x, None], [x, None, None]], 0);

    assert_eq!(state.game_result(), Some(Winner(X)));
    assert!(state.is_terminal());

    let state = TicTacToeState::from_board([[o, None, o], [None, o, None], [o, None, o]], 0);

    assert_eq!(state.game_result(), Some(Winner(O)));
    assert!(state.is_terminal());

    let state = TicTacToeState::from_board([[x, x, x], [o, o, x], [x, o, o]], 0);

    assert_eq!(state.game_result(), Some(Winner(X)));
    assert!(state.is_terminal());

    let state = TicTacToeState::from_board([[x, x, None], [o, None, None], [x, None, None]], 0);

    assert_eq!(state.game_result(), None);
    assert!(!state.is_terminal());

    //X  X  O
    //X  X  O
    //.  O  .
    let state = TicTacToeState::from_board([[x, x, o], [x, x, o], [None, o, None]], 0);

    assert_eq!(state.game_result(), None);
    assert!(!state.is_terminal());

    //X  X  O
    //X  X  O
    //O  O  O
    let state = TicTacToeState::from_board([[x, x, o], [x, x, o], [o, o, o]], 0);

    assert_eq!(state.game_result(), Some(Winner(O)));
    assert!(state.is_terminal());
}

fn check_evals() {
    let mut evaluator = TicTacToeEvaluator;
    let mut eval = |state: &TicTacToeState<3>| -> f32 {
        Evaluator::<TicTacToe<3>>::evaluate(&mut evaluator, state).unwrap() as f32
    };

    let state = TicTacToeState::from_board(
        [[None, None, None], [None, None, None], [None, None, None]],
        0,
    );

    assert_eq!(eval(&state), 0.0);

    // state where X wins
    let state = TicTacToeState::from_board(
        [
            [Some(X), Some(X), Some(X)],
            [Some(O), Some(O), Some(X)],
            [Some(X), Some(O), Some(O)],
        ],
        9,
    );

    assert_eq!(eval(&state), 100.0);

    //same state but inverted
    let state = TicTacToeState::from_board(
        [
            [Some(O), Some(O), Some(O)],
            [Some(X), Some(X), Some(O)],
            [Some(O), Some(X), Some(X)],
        ],
        9,
    );

    assert_eq!(eval(&state), -100.0);
}

#[test]
fn test_terminal_state() {
    check_terminal_states();
}

#[test]
fn tic_tac_toe_test_terminal_state() {
    check_terminal_states();
}

#[test]
fn test_evals() {
    check_evals();
}

#[test]
fn tic_tac_toe_test_evals() {
    check_evals();
}

#[test]
fn perft() {
    type TTT = TicTacToe<3>;

    let state = TTT::initial_state();
    let nodes = perft::perft::<TTT>(&state, 9);
    assert_eq!(nodes, 255_168);
}

#[test]
fn a_drawn_board_is_a_draw() {
    let x = Some(X);
    let o = Some(O);
    let state = TicTacToeState::from_board([[x, o, x], [x, o, o], [o, x, x]], 9);
    assert_eq!(state.game_result(), Some(Draw));
    assert!(state.is_terminal());
}
