use glasswing::agents::{Agent, Evaluator, MiniMaxAgent, NegaMax};
use glasswing::cache::{QuadraticProbingTable64, TranspositionHash};
use glasswing::games::connect4::{
    check_diagonals, check_down_diagonal, check_up_diagonal, gen_down_diagonal, gen_up_diagonal,
    C4Action, C4ActionIter, C4Heuristic, C4State, Column, Connect4, Tile,
};
use glasswing::model::{Game, GameResult, GwState, Team};
use glasswing::perft::{perft, perft_with_cache};

fn play(columns: &[u8]) -> C4State {
    let mut state = Connect4::initial_state();
    for column in columns {
        assert!(!state.is_terminal());
        let action = C4Action::new(*column);
        assert!(state.is_legal(&action));
        state = state.apply_action(&action);
    }
    state
}

#[test]
fn tiles_stack_up() {
    let start = Connect4::initial_state();
    assert_eq!(Connect4::starting_team(), Team::One);
    assert_eq!(start.team_to_move(), Team::One);
    assert_eq!(start.count_actions(), 7);
    assert_eq!(start.tiles(), 0);
    let state = play(&[3, 3, 2]);
    assert_eq!(state.team_to_move(), Team::Two);
    assert_eq!(state.column(3), Column { one: 0b01, two: 0b10, height: 2 });
    assert_eq!(state.column(2), Column { one: 0b1, two: 0, height: 1 });
    assert_eq!(state.column(0), Column { one: 0, two: 0, height: 0 });
    assert_eq!(state.column(3).tile(0), Tile::Colour(Team::One));
    assert_eq!(state.column(3).tile(1), Tile::Colour(Team::Two));
    assert_eq!(state.column(3).tile(2), Tile::Empty);
    assert_eq!(state.tiles(), 3);
    assert_eq!(state.game_result(), None);
}

#[test]
fn a_full_column_takes_no_more() {
    let state = play(&[0, 0, 0, 0, 0, 0]);
    assert_eq!(state.column(0).height, 6);
    assert!(!state.is_legal(&C4Action::new(0)));
    assert!(state.is_legal(&C4Action::new(1)));
    assert!(!state.is_legal(&C4Action::new(7)));
    let actions = state.actions();
    assert_eq!(actions.len(), 6);
    assert_eq!(actions[0], C4Action::new(1));
    assert_eq!(actions[5], C4Action::new(6));
    let mut walk = C4ActionIter::new(state);
    let mut seen = Vec::new();
    while let Some(action) = walk.next() {
        seen.push(action);
    }
    assert_eq!(seen, actions);
    assert_eq!(walk.next(), None);
}

#[test]
fn four_upright_win() {
    let state = play(&[0, 1, 0, 1, 0, 1]);
    assert_eq!(state.game_result(), None);
    let state = state.apply_action(&C4Action::new(0));
    assert_eq!(state.game_result(), Some(GameResult::Win(Team::One)));
    assert!(state.is_terminal());
    assert!(state.actions().is_empty());
    assert!(!state.is_legal(&C4Action::new(3)));
    let mut walk = C4ActionIter::new(state);
    assert_eq!(walk.next(), None);
    // the second team, higher up in the column
    let state = play(&[2, 2, 3, 2, 3, 2, 3, 2]);
    assert_eq!(state.game_result(), Some(GameResult::Win(Team::Two)));
}

#[test]
fn four_level_win() {
    let state = play(&[0, 0, 1, 1, 2, 2, 3]);
    assert_eq!(state.game_result(), Some(GameResult::Win(Team::One)));
    // at the right edge, closed from the middle
    let state = play(&[6, 6, 5, 5, 3, 3, 4]);
    assert_eq!(state.game_result(), Some(GameResult::Win(Team::One)));
    // three are not four
    let state = play(&[0, 0, 1, 1, 2, 2]);
    assert_eq!(state.game_result(), None);
    // a gap breaks the line
    let state = play(&[0, 0, 1, 1, 3, 3, 4]);
    assert_eq!(state.game_result(), None);
    // on the second row
    let state = play(&[0, 1, 2, 3, 3, 0, 6, 1, 6, 2, 5, 3]);
    assert_eq!(state.column(3).height, 3);
    assert_eq!(state.game_result(), None);
    // the second team, on the second row
    let state = play(&[0, 0, 1, 1, 2, 2, 6, 3, 6, 3]);
    assert_eq!(state.game_result(), Some(GameResult::Win(Team::Two)));
    let state = play(&[1, 0, 0, 1, 2, 2, 3, 3, 6, 6, 5, 6, 5, 3, 5, 2, 6, 1]);
    assert_eq!(state.game_result(), None);
}

#[test]
fn four_aslant_win() {
    let rising = [0u8, 1, 1, 2, 3, 2, 2, 3, 4, 3, 3];
    let state = play(&rising[..10]);
    assert_eq!(state.game_result(), None);
    let state = play(&rising);
    assert_eq!(state.game_result(), Some(GameResult::Win(Team::One)));
    let falling: Vec<u8> = rising.iter().map(|column| 6 - column).collect();
    let state = play(&falling[..10]);
    assert_eq!(state.game_result(), None);
    let state = play(&falling);
    assert_eq!(state.game_result(), Some(GameResult::Win(Team::One)));
    // closed from the middle of the diagonal
    let state = play(&[0, 1, 1, 3, 3, 3, 3, 2, 2, 6, 2]);
    assert_eq!(state.game_result(), Some(GameResult::Win(Team::One)));
}

#[test]
fn diagonals_are_picked_by_their_cell() {
    assert_eq!(gen_up_diagonal(0, 0), 0x8040201008040201);
    assert_eq!(gen_up_diagonal(3, 3), 0x8040201008040201);
    assert_eq!(gen_up_diagonal(1, 0), 0x4020100804020100);
    assert_eq!(gen_up_diagonal(0, 1), 0x0080402010080402);
    assert_eq!(gen_down_diagonal(0, 7), 0x0102040810204080);
    assert_eq!(gen_down_diagonal(7, 0), 0x0102040810204080);
    assert_eq!(gen_down_diagonal(3, 3), 0x0001020408102040);
    assert_eq!(gen_down_diagonal(4, 4), 0x0204081020408000);
    // tiles at (0,0) (1,1) (2,2) (3,3)
    let board = 0x0000_0000_0804_0201u64;
    assert!(check_up_diagonal(board, 2, 2));
    assert!(check_up_diagonal(board, 0, 0));
    assert!(!check_up_diagonal(board, 2, 1));
    assert!(!check_down_diagonal(board, 2, 2));
    assert!(check_diagonals(&[1, 2, 4, 8, 0, 0, 0], 1, 1));
    assert!(!check_diagonals(&[1, 2, 4, 0, 16, 0, 0], 1, 1));
    assert!(check_diagonals(&[0, 0, 0, 8, 4, 2, 1], 5, 1));
    assert!(!check_diagonals(&[0, 0, 0, 8, 4, 2, 1], 5, 2));
}

#[test]
fn tiles_can_be_set() {
    let mut state = Connect4::initial_state();
    state.set_tile(2, 0, Tile::Colour(Team::One));
    state.set_tile(2, 1, Tile::Colour(Team::Two));
    assert_eq!(state.column(2), Column { one: 0b01, two: 0b10, height: 0 });
    state.set_tile(2, 1, Tile::Colour(Team::One));
    assert_eq!(state.column(2), Column { one: 0b11, two: 0, height: 0 });
    state.set_tile(2, 0, Tile::Empty);
    assert_eq!(state.column(2), Column { one: 0b10, two: 0, height: 0 });
    assert_eq!(state.team_to_move(), Team::One);
}

#[test]
fn a_fast_win_is_worth_more() {
    let mut heuristic = C4Heuristic;
    let won = play(&[0, 1, 0, 1, 0, 1, 0]);
    assert_eq!(heuristic.evaluate_for(&won, &Team::One).unwrap(), 1000 - 7);
    assert_eq!(heuristic.evaluate_for(&won, &Team::Two).unwrap(), -1000 + 7);
    let open = play(&[0, 1, 0]);
    assert_eq!(heuristic.evaluate_for(&open, &Team::One).unwrap(), 0);
    // the first team makes the fourth in the column, the second must stop it
    let threat = play(&[0, 1, 0, 1, 0]);
    let mut agent = MiniMaxAgent::<Connect4, _>::new(2, C4Heuristic);
    assert_eq!(agent.select_action(&threat).ok(), Some(C4Action::new(0)));
    let mut search = NegaMax::<Connect4, _>::new(2, C4Heuristic);
    assert_eq!(search.evaluate_for(&play(&[0, 1, 0, 1, 0, 1]), &Team::One).unwrap(), 993);
}

#[test]
fn connect_four_is_counted() {
    let start = Connect4::initial_state();
    assert_eq!(perft::<Connect4>(&start, 1), 7);
    assert_eq!(perft::<Connect4>(&start, 2), 49);
    assert_eq!(perft::<Connect4>(&start, 3), 343);
    assert_eq!(perft::<Connect4>(&start, 4), 2401);
    assert_eq!(perft::<Connect4>(&start, 5), 16807);
    assert_eq!(perft::<Connect4>(&start, 6), 117649);
    let mut table = QuadraticProbingTable64::<C4State, u64>::new(1 << 16);
    assert_eq!(perft_with_cache::<Connect4, _>(&start, 6, &mut table, 6), 117649);
    assert!(table.size() > 0);
}

#[test]
fn keys_tell_boards_apart() {
    let start = Connect4::initial_state();
    // seven empty columns: the bit at height 0 in each
    assert_eq!(start.hash(), 1 | 1 << 7 | 1 << 14 | 1 << 21 | 1 << 28 | 1 << 35 | 1 << 42);
    let state = play(&[0, 0, 1]);
    assert_eq!(
        state.hash(),
        (0b100 | 0b001) | (0b10 | 0b01) << 7 | 1 << 14 | 1 << 21 | 1 << 28 | 1 << 35 | 1 << 42
    );
    assert_ne!(play(&[0, 1]).hash(), play(&[1, 0]).hash());
    // the same board by another order of moves
    assert_eq!(play(&[0, 1, 2, 3]).hash(), play(&[2, 3, 0, 1]).hash());
}
