use glasswing::agents::{Evaluator, MiniMax, NegaMax};
use glasswing::cache::TranspositionHash;
use glasswing::games::connect4::{C4Action, C4State, Column, Connect4};
use glasswing::games::nxn_tictactoe::{
    NTTTAction, NTTTActionIter, NTTTEvaluator, NTTTState, NTicTacToe,
};
use glasswing::games::tic_tac_toe::Line;
use glasswing::model::Team::{One, Two};
use glasswing::model::{Game, GameResult, GwState, Team};
use glasswing::perft::perft;

#[test]
fn the_board_of_n_moves() {
    let start = NTicTacToe::<3>::initial_state();
    assert_eq!(NTicTacToe::<3>::starting_team(), One);
    assert_eq!(start.team_to_move(), One);
    assert_eq!(start.count_actions(), 9);
    let actions = start.actions();
    assert_eq!(actions[0], NTTTAction::new(0, 0));
    assert_eq!(actions[1], NTTTAction::new(0, 1));
    assert_eq!(actions[3], NTTTAction::new(1, 0));
    let next = start.apply_action(&NTTTAction::new(1, 2));
    assert_eq!(next.team_to_move(), Two);
    assert_eq!(next.tile(1, 2), Some(One));
    assert_eq!(next.row(1), [None, None, Some(One)]);
    assert!(!next.is_legal(&NTTTAction::new(1, 2)));
    assert!(next.is_legal(&NTTTAction::new(2, 1)));
    assert!(!next.is_legal(&NTTTAction::new(3, 1)));
    assert!(!next.is_full());
    assert_ne!(next.hash(), start.hash());
}

#[test]
fn the_board_of_n_ends() {
    let x = Some(One);
    let o = Some(Two);
    let state = NTTTState::from_board([[x, x, x], [o, o, None], [None, None, None]], Two);
    assert_eq!(state.game_result(), Some(GameResult::Win(One)));
    assert!(state.is_terminal());
    // a finished game offers no action, though cells are empty
    assert!(state.actions().is_empty());
    assert_eq!(state.count_actions(), 0);
    assert!(!state.is_legal(&NTTTAction::new(2, 2)));
    let state = NTTTState::from_board([[o, x, None], [None, x, None], [None, x, o]], Two);
    assert_eq!(state.first_owned(Line::Column), Some(One));
    assert_eq!(state.game_result(), Some(GameResult::Win(One)));
    let state = NTTTState::from_board([[o, x, x], [None, o, None], [x, None, o]], One);
    assert_eq!(state.owner_of(Line::Diagonal, 0), Some(Two));
    assert_eq!(state.game_result(), Some(GameResult::Win(Two)));
    let state = NTTTState::from_board([[o, x, x], [None, x, None], [x, None, o]], Two);
    assert_eq!(state.game_result(), Some(GameResult::Win(One)));
    let state = NTTTState::from_board([[x, o, x], [x, o, o], [o, x, x]], Two);
    assert!(state.is_full());
    assert_eq!(state.game_result(), Some(GameResult::Draw));
    let state = NTTTState::from_board([[x, o, None], [x, o, o], [o, x, x]], One);
    assert_eq!(state.game_result(), None);
    assert_eq!(state.actions(), vec![NTTTAction::new(0, 2)]);
}

#[test]
fn the_walk_goes_row_by_row() {
    let x = Some(One);
    let o = Some(Two);
    let state = NTTTState::from_board([[x, None, o], [None, None, x], [o, None, None]], One);
    let mut walk = NTTTActionIter::new(state);
    let mut seen = Vec::new();
    while let Some(action) = walk.next() {
        seen.push(action);
    }
    assert_eq!(seen, state.actions());
    assert_eq!(
        seen,
        vec![
            NTTTAction::new(0, 1),
            NTTTAction::new(1, 0),
            NTTTAction::new(1, 1),
            NTTTAction::new(2, 1),
            NTTTAction::new(2, 2)
        ]
    );
    assert_eq!(walk.next(), None);
    let over = NTTTState::from_board([[x, x, x], [o, o, None], [None, None, None]], Two);
    let mut walk = NTTTActionIter::new(over);
    assert_eq!(walk.next(), None);
}

#[test]
fn the_board_of_n_is_searched_and_counted() {
    let start = NTicTacToe::<3>::initial_state();
    assert_eq!(perft::<NTicTacToe<3>>(&start, 9), 255_168);
    let mut mini = MiniMax::<NTicTacToe<3>, _>::new(9, NTTTEvaluator);
    assert_eq!(mini.evaluate(&start).unwrap(), 0);
    let mut nega = NegaMax::<NTicTacToe<3>, _>::new(9, NTTTEvaluator);
    assert_eq!(nega.evaluate_for(&start, &One).unwrap(), 0);
    let x = Some(One);
    let o = Some(Two);
    let wins = NTTTState::from_board([[x, x, None], [o, o, None], [None, None, None]], One);
    assert_eq!(mini.evaluate(&wins).unwrap(), 100);
    assert_eq!(nega.evaluate_for(&wins, &Two).unwrap(), -100);
    let mut evaluator = NTTTEvaluator;
    assert_eq!(Evaluator::<NTicTacToe<3>>::evaluate_for(&mut evaluator, &wins, &One).unwrap(), 0);
}

#[test]
fn a_drawn_board_is_read() {
    // the top row first; discs of the first team are red, of the second yellow
    let drawn = "\u{1F518}\u{1F518}\u{1F518}\u{1F518}\u{1F518}\u{1F518}\u{1F518}\n\
                 \u{1F518}\u{1F518}\u{1F518}\u{1F518}\u{1F518}\u{1F518}\u{1F518}\n\
                 \u{1F518}\u{1F518}\u{1F518}\u{1F518}\u{1F518}\u{1F518}\u{1F518}\n\
                 \u{1F518}\u{1F518}\u{1F518}\u{1F518}\u{1F518}\u{1F518}\u{1F518}\n\
                 \u{1F518}\u{1F518} \u{1F518}\u{1F7E1}\u{1F518}\u{1F518}\u{1F518}\n\
                 \u{1F518}\u{1F518}\u{1F534}\u{1F534}\u{1F518}\u{1F518}\u{1F518}";
    let state = C4State::from_pretty(drawn, None);
    assert_eq!(state.column(2), Column { one: 0b01, two: 0, height: 1 });
    assert_eq!(state.column(3), Column { one: 0b01, two: 0b10, height: 2 });
    assert_eq!(state.column(0), Column { one: 0, two: 0, height: 0 });
    // three tiles: the second team is to move
    assert_eq!(state.team_to_move(), Team::Two);
    assert_eq!(state.game_result(), None);
    assert_eq!(state.tiles(), 3);
    let mut played = Connect4::initial_state();
    for column in [3u8, 3, 2] {
        played = played.apply_action(&C4Action::new(column));
    }
    assert_eq!(played.column(3), state.column(3));
    assert_eq!(played.hash(), state.hash());
    let given = C4State::from_pretty(drawn, Some(GameResult::Draw));
    assert_eq!(given.game_result(), Some(GameResult::Draw));
    assert!(given.is_terminal());
}

#[test]
fn a_board_that_is_no_board_is_refused() {
    assert!(C4State::try_from_pretty("x", None).is_none());
    assert!(C4State::try_from_pretty("\u{1F518}\u{1F518}?", None).is_none());
    // a seventh row
    let row = "\u{1F518}\u{1F518}\u{1F518}\u{1F518}\u{1F518}\u{1F518}\u{1F518}\n";
    assert!(C4State::try_from_pretty(&row.repeat(6), None).is_some());
    assert!(C4State::try_from_pretty(&row.repeat(7), None).is_none());
    let mut longer = row.repeat(6);
    longer.push('\u{1F534}');
    assert!(C4State::try_from_pretty(&longer, None).is_none());
    // an empty drawing is an empty board
    let empty = C4State::from_pretty("", None);
    assert_eq!(empty.tiles(), 0);
    assert_eq!(empty.team_to_move(), Team::One);
    // a short drawing fills the top rows
    let top = C4State::from_pretty("\u{1F534}", None);
    assert_eq!(top.column(0), Column { one: 0b100000, two: 0, height: 1 });
}
