use glasswing::cache::{QuadraticProbingTable64, TranspositionHash};
use glasswing::games::tic_tac_toe::{TicTacToe, TicTacToeState};
use glasswing::games::tictactoe::{perft_from_start, TTTState, TicTacToe as BitTicTacToe};
use glasswing::model::TwoPlayerTeam::{One as X, Two as O};
use glasswing::model::{Game, GwState, SubStateIter};
use glasswing::perft::transposition::{
    splitmix, DirectHash, SplitMix64, TransparentHasher, TranspositionHashMap, TranspositionTable,
};
use glasswing::perft::{perft, perft_recursive, perft_with_cache};
use std::hash::{BuildHasher, Hasher};

type T3 = TicTacToe<3>;
type S3 = TicTacToeState<3>;

/// The count written out plainly: the states after `depth` plies, a game that
/// has ended counting as one.
fn plain_count(state: &S3, depth: u32) -> u64 {
    if depth == 0 || state.is_terminal() {
        return 1;
    }
    state
        .actions()
        .iter()
        .map(|action| plain_count(&state.apply_action(action), depth - 1))
        .sum()
}

#[test]
fn perft_counts_the_games_of_tic_tac_toe() {
    let start = T3::initial_state();
    assert_eq!(perft::<T3>(&start, 0), 1);
    assert_eq!(perft::<T3>(&start, 1), 9);
    assert_eq!(perft::<T3>(&start, 2), 72);
    assert_eq!(perft::<T3>(&start, 3), 504);
    assert_eq!(perft::<T3>(&start, 4), 3024);
    assert_eq!(perft::<T3>(&start, 5), 15120);
    for depth in 0..=9 {
        assert_eq!(perft::<T3>(&start, depth), plain_count(&start, depth));
    }
    assert_eq!(perft::<T3>(&start, 9), 255_168);
    // deeper than the game is long changes nothing
    assert_eq!(perft::<T3>(&start, 12), 255_168);
    assert_eq!(perft_recursive::<T3>(&start, 9), 255_168);
}

#[test]
fn perft_of_a_finished_game_is_one() {
    let x = Some(X);
    let o = Some(O);
    let won = S3::from_board([[x, x, x], [o, o, None], [None, None, None]], 5);
    assert_eq!(perft::<T3>(&won, 0), 1);
    assert_eq!(perft::<T3>(&won, 1), 1);
    assert_eq!(perft::<T3>(&won, 7), 1);
    let last = S3::from_board([[x, o, x], [x, o, o], [o, x, None]], 8);
    assert_eq!(perft::<T3>(&last, 1), 1);
    assert_eq!(perft::<T3>(&last, 2), 1);
}

#[test]
fn the_cache_never_changes_the_count() {
    let start = T3::initial_state();
    for depth in 0..=9u32 {
        let expected = perft::<T3>(&start, depth);
        for table_depth in 0..=10u32 {
            let mut table = QuadraticProbingTable64::<S3, u64>::new(1 << 14);
            assert_eq!(perft_with_cache::<T3, _>(&start, depth, &mut table, table_depth), expected);
            if table_depth == 0 || depth < 2 {
                assert_eq!(table.size(), 0);
            }
        }
    }
    let mut table = QuadraticProbingTable64::<S3, u64>::new(1 << 14);
    assert_eq!(perft_with_cache::<T3, _>(&start, 9, &mut table, 9), 255_168);
    assert!(table.size() > 0);
    // a second run of the same search is answered from the table
    assert_eq!(perft_with_cache::<T3, _>(&start, 9, &mut table, 9), 255_168);
}

#[test]
fn a_small_cache_drops_and_the_count_stays() {
    let start = T3::initial_state();
    let mut table = QuadraticProbingTable64::<S3, u64>::new(4);
    assert_eq!(perft_with_cache::<T3, _>(&start, 9, &mut table, 9), 255_168);
    assert!(table.size() <= 4);
}

#[test]
fn the_bitboard_game_counts_the_same() {
    let start: TTTState = BitTicTacToe::initial_state();
    assert_eq!(perft::<BitTicTacToe>(&start, 1), 9);
    assert_eq!(perft::<BitTicTacToe>(&start, 9), 255_168);
    let mut table = QuadraticProbingTable64::<TTTState, u64>::new(1 << 14);
    assert_eq!(perft_with_cache::<BitTicTacToe, _>(&start, 9, &mut table, 5), 255_168);
    assert!(start.hash() != 0);
}

#[test]
fn signatures_pack_the_board() {
    let x = Some(X);
    let o = Some(O);
    let empty = T3::initial_state();
    assert_eq!(empty.hash(), 0);
    let state = S3::from_board([[x, None, None], [None, None, None], [None, None, o]], 2);
    // nine cells of two bits: 3 for X in the first cell, 2 for O in the last
    assert_eq!(state.hash(), (3 << 16) | 2);
    let state = S3::from_board([[None, o, None], [None, None, None], [None, x, None]], 2);
    assert_eq!(state.hash(), (2 << 14) | (3 << 2));
}

#[test]
fn substates_come_in_the_order_of_the_actions() {
    let start = T3::initial_state();
    let mut walk = SubStateIter::<T3>::new(start);
    let mut seen = 0;
    while let Some(next) = walk.next() {
        let action = start.actions()[seen];
        assert_eq!(next, start.apply_action(&action));
        seen += 1;
    }
    assert_eq!(seen, 9);
    assert_eq!(walk.next(), None);
    let x = Some(X);
    let o = Some(O);
    let won = S3::from_board([[x, x, x], [o, o, None], [None, None, None]], 5);
    let mut walk = SubStateIter::<T3>::new(won);
    assert_eq!(walk.next(), None);
}

#[test]
fn splitmix_spreads_the_bits() {
    assert_eq!(splitmix(0), 0);
    assert_eq!(splitmix(1), 6238072747940578789);
    assert_eq!(splitmix(2), 15839785061582574730);
    assert_eq!(splitmix(42), 12058926934050108962);
    assert_eq!(splitmix(u64::MAX), 13029008266876403067);
}

#[test]
fn hashers_take_a_word() {
    let mut plain = TransparentHasher::new();
    assert_eq!(plain.finish(), 0);
    plain.write_u64(17);
    assert_eq!(plain.finish(), 17);
    plain.pass(18);
    assert_eq!(plain.digest(), 18);
    let mut built = plain.build_hasher();
    assert_eq!(built.finish(), 0);
    built.write(&[1, 2, 3]);
    assert_eq!(built.finish(), 0);
    let mut mixed = SplitMix64::default().build_hasher();
    assert_eq!(mixed.finish(), 0);
    mixed.write_u64(1);
    assert_eq!(mixed.finish(), 6238072747940578789);
    mixed.mix(42);
    assert_eq!(mixed.digest(), 12058926934050108962);
}

struct Position(u64);

impl DirectHash for Position {
    fn spec_get_hash(&self) -> u64 {
        self.0
    }

    fn get_hash(&self) -> u64 {
        self.0
    }
}

fn exercise<T: TranspositionTable<Position, u32>>(table: &mut T) {
    assert_eq!(table.size(), 0);
    assert!(!table.contains(&Position(5)));
    assert_eq!(table.get(&Position(5)), None);
    assert_eq!(table.insert(&Position(5), 50), None);
    assert_eq!(table.insert(&Position(6), 60), None);
    assert_eq!(table.insert(&Position(5), 51), Some(50));
    assert!(table.contains(&Position(5)));
    assert_eq!(table.get(&Position(5)), Some(&51));
    assert_eq!(table.get(&Position(6)), Some(&60));
    assert_eq!(table.get(&Position(0)), None);
    assert_eq!(table.insert(&Position(0), 1), None);
    assert_eq!(table.get(&Position(0)), Some(&1));
    assert_eq!(table.size(), 3);
    assert!(table.capacity() >= 3);
}

#[test]
fn the_hash_map_table_keeps_what_it_is_given() {
    exercise(&mut TranspositionHashMap::<Position, u32>::new());
    exercise(&mut TranspositionHashMap::<Position, u32>::with_capacity(100));
    exercise(&mut TranspositionHashMap::<Position, u32, _>::with_hasher(SplitMix64::default()));
    exercise(&mut TranspositionHashMap::<Position, u32, _>::with_capacity_and_hasher(
        10,
        TransparentHasher::new(),
    ));
}

#[test]
fn a_fresh_cache_of_any_size_keeps_the_count() {
    for slots in [1usize, 2, 64, 100, 1 << 12] {
        for table_depth in [0u32, 1, 4, 9, 20] {
            assert_eq!(perft_from_start(9, table_depth, slots), 255_168);
            assert_eq!(perft_from_start(4, table_depth, slots), 3024);
        }
    }
    assert_eq!(perft_from_start(0, 3, 16), 1);
}

#[test]
fn a_count_that_the_cache_holds_is_returned_as_it_is() {
    let start = T3::initial_state();
    let state = start.apply_action(&start.actions()[4]);
    let mut table = QuadraticProbingTable64::<S3, u64>::new(64);
    assert_eq!(table.insert(state, 77), None);
    assert_eq!(perft_with_cache::<T3, _>(&state, 3, &mut table, 3), 77);
    assert_eq!(table.size(), 1);
    // without the table, at depth 1 and at depth 0 the count is made afresh
    assert_eq!(perft_with_cache::<T3, _>(&state, 3, &mut table, 0), 8 * 7 * 6);
    assert_eq!(perft_with_cache::<T3, _>(&state, 1, &mut table, 3), 8);
    assert_eq!(perft_with_cache::<T3, _>(&state, 0, &mut table, 3), 1);
    assert_eq!(table.size(), 1);
    // what the table held is still held after a search that fills it
    let other = start.apply_action(&start.actions()[0]);
    assert_eq!(perft_with_cache::<T3, _>(&other, 3, &mut table, 3), 8 * 7 * 6);
    assert!(table.size() > 1);
    assert_eq!(table.get(&state), Some(&77));
    assert_eq!(table.get(&other), Some(&(8 * 7 * 6)));
}
