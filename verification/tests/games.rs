use glasswing::games::counting_game::{
    CountingAction, CountingGame, CountingGameResult, CountingState, CountingTeam,
};
use glasswing::games::tic_tac_toe::{Line, TicTacToe, TicTacToeAction, TicTacToeState};
use glasswing::games::tictactoe::{
    win_condition, TTTAction, TTTActionIter, TTTState, TicTacToe as BitTicTacToe,
};
use glasswing::model::TwoPlayerGameResult::{Draw, Winner};
use glasswing::model::TwoPlayerTeam::{One as X, Two as O};
use glasswing::model::{
    Game, GameResult, GwGameResult, GwState, GwTeam, Polarity, Team, TwoPlayerGameResult,
    TwoPlayerTeam,
};

#[test]
fn polarity_flips_and_signs() {
    assert_eq!(Polarity::Positive.flip(), Polarity::Negative);
    assert_eq!(Polarity::Negative.flip(), Polarity::Positive);
    assert_eq!(Polarity::Positive.sign(), 1);
    assert_eq!(Polarity::Negative.sign(), -1);
}

#[test]
fn teams_oppose() {
    assert_eq!(Team::One.opponent(), Team::Two);
    assert_eq!(Team::Two.opponent(), Team::One);
    assert_eq!(GwTeam::opponent(&Team::One), Team::Two);
    assert_eq!(Team::One.polarity(), Polarity::Positive);
    assert_eq!(Team::Two.polarity(), Polarity::Negative);
    assert_eq!(Team::One.nth(0), Team::One);
    assert_eq!(Team::One.nth(3), Team::Two);
    assert_eq!(Team::Two.nth(2), Team::Two);
    assert_eq!(Team::One.name(), "One");
    assert_eq!(Team::Two.name(), "Two");
    assert_eq!(CountingTeam::One.opponent(), CountingTeam::Two);
    assert_eq!(CountingTeam::Two.polarity(), Polarity::Negative);
}

#[test]
fn results_name_their_winner() {
    assert_eq!(GameResult::Win(Team::Two).winner(), Some(Team::Two));
    assert!(!GameResult::Win(Team::Two).is_draw());
    assert_eq!(GameResult::<Team>::Draw.winner(), None);
    assert!(GameResult::<Team>::Draw.is_draw());
    assert_eq!(TwoPlayerGameResult::Winner(X).winner(), Some(X));
    assert!(TwoPlayerGameResult::<TwoPlayerTeam>::Draw.is_draw());
    assert_eq!(TwoPlayerGameResult::Winner(O).clone(), TwoPlayerGameResult::Winner(O));
    assert_eq!(CountingGameResult::Winner(CountingTeam::One).winner(), Some(CountingTeam::One));
    assert!(CountingGameResult::Draw.is_draw());
    assert!(!CountingGameResult::Winner(CountingTeam::One).is_draw());
}

#[test]
fn tic_tac_toe_moves() {
    let start = TicTacToe::<3>::initial_state();
    assert_eq!(TicTacToe::<3>::starting_team(), X);
    assert_eq!(start.turn(), 0);
    assert_eq!(start.team_to_move(), X);
    assert_eq!(start.count_actions(), 9);
    let actions = start.actions();
    assert_eq!(actions[0], TicTacToeAction::new(0, 0));
    assert_eq!(actions[1], TicTacToeAction::new(0, 1));
    assert_eq!(actions[3], TicTacToeAction::new(1, 0));
    assert_eq!(actions[8], TicTacToeAction::new(2, 2));
    let next = start.apply_action(&TicTacToeAction::new(1, 2));
    assert_eq!(next.turn(), 1);
    assert_eq!(next.team_to_move(), O);
    assert_eq!(next.tile(1, 2), Some(X));
    assert_eq!(next.tile(2, 1), None);
    assert_eq!(next.count_actions(), 8);
    assert!(!next.is_legal(&TicTacToeAction::new(1, 2)));
    assert!(next.is_legal(&TicTacToeAction::new(2, 1)));
    assert!(!next.is_legal(&TicTacToeAction::new(3, 0)));
    assert!(!next.is_legal(&TicTacToeAction::new(0, 3)));
    let after = next.apply_action(&TicTacToeAction::new(0, 0));
    assert_eq!(after.tile(0, 0), Some(O));
    assert_eq!(after.team_to_move(), X);
    assert!(!start.is_full());
}

#[test]
fn lines_are_owned_in_order() {
    let x = Some(X);
    let o = Some(O);
    // the first row is of O, the second of X: rows are looked at first to last
    let state = TicTacToeState::from_board([[o, o, o], [x, x, x], [None, None, None]], 6);
    assert_eq!(state.owner_of(Line::Row, 0), Some(O));
    assert_eq!(state.owner_of(Line::Row, 1), Some(X));
    assert_eq!(state.owner_of(Line::Row, 2), None);
    assert_eq!(state.first_owned(Line::Row), Some(O));
    assert_eq!(state.first_owned(Line::Column), None);
    assert_eq!(state.game_result(), Some(Winner(O)));
    // a column of X and a diagonal of O: columns come before diagonals
    let state = TicTacToeState::from_board([[o, x, None], [None, x, None], [None, x, o]], 5);
    assert_eq!(state.first_owned(Line::Column), Some(X));
    assert_eq!(state.game_result(), Some(Winner(X)));
    let state = TicTacToeState::from_board([[o, x, None], [None, o, None], [None, x, o]], 5);
    assert_eq!(state.owner_of(Line::Diagonal, 0), Some(O));
    assert_eq!(state.owner_of(Line::AntiDiagonal, 0), None);
    assert_eq!(state.game_result(), Some(Winner(O)));
    let state = TicTacToeState::from_board([[o, x, x], [None, x, None], [x, None, o]], 5);
    assert_eq!(state.owner_of(Line::AntiDiagonal, 0), Some(X));
    assert_eq!(state.game_result(), Some(Winner(X)));
    let state = TicTacToeState::from_board([[x, o, x], [x, o, o], [o, x, x]], 9);
    assert!(state.is_full());
    assert_eq!(state.game_result(), Some(Draw));
}

#[test]
fn boards_of_other_sizes() {
    let start = TicTacToe::<4>::initial_state();
    assert_eq!(start.count_actions(), 16);
    let mut state = start;
    // X fills the first column of the board, O the second
    for (col, row) in [(0, 0), (1, 0), (0, 1), (1, 1), (0, 2), (1, 2), (0, 3)] {
        assert!(!state.is_terminal());
        state = state.apply_action(&TicTacToeAction::new(col, row));
    }
    assert_eq!(state.game_result(), Some(Winner(X)));
    let single = TicTacToe::<1>::initial_state();
    assert_eq!(single.count_actions(), 1);
    let done = single.apply_action(&TicTacToeAction::new(0, 0));
    assert_eq!(done.game_result(), Some(Winner(X)));
    let none = TicTacToe::<0>::initial_state();
    assert_eq!(none.count_actions(), 0);
    assert_eq!(none.game_result(), Some(Draw));
}

#[test]
fn the_counting_game_counts_to_twenty_one() {
    let start = CountingGame::initial_state();
    assert_eq!(CountingGame::starting_team(), CountingTeam::One);
    assert_eq!(start.total(), 0);
    assert_eq!(start.turn(), 0);
    assert_eq!(
        start.actions(),
        vec![
            CountingAction { increment: 1 },
            CountingAction { increment: 2 },
            CountingAction { increment: 3 }
        ]
    );
    assert!(start.is_legal(&CountingAction { increment: 3 }));
    assert!(!start.is_legal(&CountingAction { increment: 0 }));
    assert!(!start.is_legal(&CountingAction { increment: 4 }));
    let mut state = start;
    for _ in 0..6 {
        assert!(!state.is_terminal());
        assert_eq!(state.game_result(), None);
        state = state.apply_action(&CountingAction { increment: 3 });
    }
    assert_eq!(state.total(), 18);
    assert_eq!(state.team_to_move(), CountingTeam::One);
    let state = state.apply_action(&CountingAction { increment: 3 });
    assert_eq!(state.total(), 21);
    assert!(state.is_terminal());
    assert_eq!(state.game_result(), Some(CountingGameResult::Winner(CountingTeam::Two)));
    let close = CountingState { total: 20, turn: 3 }.apply_action(&CountingAction { increment: 3 });
    assert_eq!(close.total(), 23);
    assert_eq!(close.game_result(), Some(CountingGameResult::Winner(CountingTeam::One)));
}

#[test]
fn the_bitboard_knows_its_lines() {
    for line in [0b000000111u16, 0b000111000, 0b111000000, 0b001001001, 0b010010010, 0b100100100, 0b100010001, 0b001010100] {
        assert!(win_condition(line));
        assert!(win_condition(line | 0b010000000 | 0b000001000));
    }
    for other in [0u16, 0b000000011, 0b101000101, 0b110100001, 0b011100010] {
        assert!(!win_condition(other));
    }
}

#[test]
fn the_bitboard_moves() {
    let start: TTTState = BitTicTacToe::initial_state();
    assert_eq!(BitTicTacToe::starting_team(), Team::One);
    assert_eq!(start.count_actions(), 9);
    let actions = start.actions();
    for (position, action) in actions.iter().enumerate() {
        assert_eq!(*action, TTTAction { mask: 1 << position });
        assert!(start.is_legal(action));
    }
    assert!(!start.is_legal(&TTTAction { mask: 0 }));
    assert!(!start.is_legal(&TTTAction { mask: 3 }));
    assert!(!start.is_legal(&TTTAction { mask: 1 << 9 }));
    let next = start.apply_action(&TTTAction { mask: 1 << 4 });
    assert_eq!(next.crosses(), 1 << 4);
    assert_eq!(next.noughts(), 0);
    assert_eq!(next.team_to_move(), Team::Two);
    assert!(!next.is_legal(&TTTAction { mask: 1 << 4 }));
    assert_eq!(next.count_actions(), 8);
    let after = next.apply_action(&TTTAction { mask: 1 });
    assert_eq!(after.noughts(), 1);
    assert_eq!(after.team_to_move(), Team::One);
    // X: 4, O: 0, X: 3, O: 1, X: 5 fills the middle row
    let mut state = after;
    for mask in [1u16 << 3, 1 << 1, 1 << 5] {
        assert!(!state.is_terminal());
        assert_eq!(state.game_result(), None);
        state = state.apply_action(&TTTAction { mask });
    }
    assert!(state.is_terminal());
    assert_eq!(state.game_result(), Some(GameResult::Win(Team::One)));
    assert!(state.actions().is_empty());
    assert!(!state.is_legal(&TTTAction { mask: 1 << 8 }));
}

#[test]
fn the_bitboard_walk_takes_the_lowest_cell_first() {
    let start: TTTState = BitTicTacToe::initial_state();
    let state = start
        .apply_action(&TTTAction { mask: 1 << 0 })
        .apply_action(&TTTAction { mask: 1 << 5 });
    let mut walk = TTTActionIter::new(state);
    let mut seen = Vec::new();
    while let Some(action) = walk.next() {
        seen.push(action);
    }
    assert_eq!(seen, state.actions());
    assert_eq!(seen.len(), 7);
    assert_eq!(seen[0], TTTAction { mask: 1 << 1 });
    assert_eq!(seen[6], TTTAction { mask: 1 << 8 });
    assert_eq!(walk.next(), None);
}

#[test]
fn a_bitboard_game_can_be_drawn() {
    let mut state: TTTState = BitTicTacToe::initial_state();
    // X O X / X O O / O X X
    for position in [0u16, 1, 2, 4, 3, 5, 7, 6, 8] {
        assert!(!state.is_terminal());
        state = state.apply_action(&TTTAction { mask: 1 << position });
    }
    assert!(state.is_terminal());
    assert_eq!(state.game_result(), Some(GameResult::Draw));
}
