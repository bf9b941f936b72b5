//! Connect four: two teams drop tiles into seven columns of six cells, and
//! the first to have four in a line, upright, level or aslant, wins.

use vstd::prelude::*;
use crate::model::error::Error;
use crate::agents::evaluator::Evaluator;
use crate::cache::traits::TranspositionHash;
use crate::model::action::GwAction;
use crate::model::game::Game;
use crate::model::game_result::GameResult;
use crate::model::state::GwState;
use crate::model::team::{GwTeam, Team};

verus! {

/// The number of columns of the board.
pub const COLUMNS: usize = 7;

/// The number of cells of a column.
pub const ROWS: u8 = 6;

/// The cells of equal column and row, one bit in each byte of a word.
pub const DP: u64 = 0x8040201008040201;

/// The cells whose column and row add up to seven.
pub const DS: u64 = 0x0102040810204080;

/// Connect four.
#[derive(Debug, Clone, Copy)]
pub struct Connect4;

/// Dropping a tile into a column.
#[derive(Clone, Copy, Debug, PartialEq, Eq, Structural)]
pub struct C4Action {
    pub column: u8,
}

impl C4Action {
    /// The drop into the given column.
    pub fn new(column: u8) -> (action: Self)
        ensures
            action.column == column,
    {
        C4Action { column }
    }
}

/// A column of the board: the tiles of each team as bits, the lowest cell in
/// the lowest bit, and the number of tiles in the column.
#[derive(Copy, Clone, Debug, PartialEq, Eq)]
pub struct Column {
    pub one: u8,
    pub two: u8,
    pub height: u8,
}

/// What a cell holds.
#[derive(Copy, Clone, Debug, PartialEq, Eq)]
pub enum Tile {
    Empty,
    Colour(Team),
}

impl Column {
    /// What the cell at `index` holds: a tile of the first team where its bit
    /// is set there, else one of the second team where that one's is.
    pub open spec fn spec_tile(&self, index: u8) -> Tile {
        if self.one & (1u8 << index) != 0 {
            Tile::Colour(Team::One)
        } else if self.two & (1u8 << index) != 0 {
            Tile::Colour(Team::Two)
        } else {
            Tile::Empty
        }
    }

    /// Returns what the cell at `index` holds.
    pub fn tile(&self, index: u8) -> (tile: Tile)
        requires
            index < 8,
        ensures
            tile == self.spec_tile(index),
    {
        let mask: u8 = 1u8 << index;
        if self.one & mask != 0 {
            Tile::Colour(Team::One)
        } else if self.two & mask != 0 {
            Tile::Colour(Team::Two)
        } else {
            Tile::Empty
        }
    }
}

/// Whether the tiles hold the cell in column `x` and row `y`: a byte stands
/// for a column, and a bit of it for a row.
pub open spec fn holds(tiles: [u8; 7], x: int, y: int) -> bool {
    0 <= x < 7 && 0 <= y < 8 && (tiles[x] >> (y as u8)) & 1 == 1
}

/// Whether the tiles hold the four cells of a line that begins in column `x`
/// and row `y` and goes on by `dx` columns and `dy` rows.
pub open spec fn four_from(tiles: [u8; 7], x: int, y: int, dx: int, dy: int) -> bool {
    holds(tiles, x, y) && holds(tiles, x + dx, y + dy) && holds(tiles, x + 2 * dx, y + 2 * dy)
        && holds(tiles, x + 3 * dx, y + 3 * dy)
}

/// Whether the tiles hold four cells, one above the other, among the lowest
/// six of column `x`.
pub open spec fn four_upright(tiles: [u8; 7], x: int) -> bool {
    four_from(tiles, x, 0, 0, 1) || four_from(tiles, x, 1, 0, 1) || four_from(tiles, x, 2, 0, 1)
}

/// Whether the tiles hold four cells side by side in row `y`.
pub open spec fn four_level(tiles: [u8; 7], y: int) -> bool {
    four_from(tiles, 0, y, 1, 0) || four_from(tiles, 1, y, 1, 0) || four_from(tiles, 2, y, 1, 0)
        || four_from(tiles, 3, y, 1, 0)
}

/// Whether the tiles hold four cells next to each other on the rising
/// diagonal through column `x` and row `y`: the cells whose row is their
/// column less `x - y`.
pub open spec fn four_rising(tiles: [u8; 7], x: int, y: int) -> bool {
    four_from(tiles, 0, y - x, 1, 1) || four_from(tiles, 1, 1 + y - x, 1, 1) || four_from(
        tiles,
        2,
        2 + y - x,
        1,
        1,
    ) || four_from(tiles, 3, 3 + y - x, 1, 1)
}

/// Whether the tiles hold four cells next to each other on the falling
/// diagonal through column `x` and row `y`: the cells whose column and row
/// add up to `x + y`.
pub open spec fn four_falling(tiles: [u8; 7], x: int, y: int) -> bool {
    four_from(tiles, 0, x + y, 1, -1) || four_from(tiles, 1, x + y - 1, 1, -1) || four_from(
        tiles,
        2,
        x + y - 2,
        1,
        -1,
    ) || four_from(tiles, 3, x + y - 3, 1, -1)
}

/// Whether the tiles hold four cells in a line on the column, the row or one
/// of the two diagonals through column `x` and row `y`, where the column is
/// `height` high: on the column only where it is at least four high.
pub open spec fn line_through(tiles: [u8; 7], x: int, y: int, height: int) -> bool {
    (height >= 4 && four_upright(tiles, x)) || four_level(tiles, y) || four_rising(tiles, x, y)
        || four_falling(tiles, x, y)
}

/// Whether the tiles in `bits` hold four cells in a row among the lowest six
/// of a column that is `height` high.
pub open spec fn upright_win(bits: u8, height: u8) -> bool {
    height >= 4 && (bits & 0b1111 == 0b1111 || bits & 0b11110 == 0b11110 || bits & 0b111100
        == 0b111100)
}

/// The tiles of one row, the first `count` columns, as a word: the tile of
/// column `i` in bit `count - i`.
pub open spec fn row_word(tiles: [u8; 7], row: u8, count: nat) -> u8
    decreases count,
{
    if count == 0 {
        0
    } else {
        (row_word(tiles, row, (count - 1) as nat) | ((tiles[count - 1] >> row) & 1)) << 1u8
    }
}

/// Whether a row holds four tiles side by side.
pub open spec fn level_win(tiles: [u8; 7], row: u8) -> bool {
    let word = row_word(tiles, row, 7);
    word & 0b11110 == 0b11110 || word & 0b111100 == 0b111100 || word & 0b1111000 == 0b1111000
        || word & 0b11110000 == 0b11110000
}

/// The tiles of the seven columns as one word, a byte for a column, the
/// first column in the lowest byte.
pub open spec fn board_word(tiles: [u8; 7]) -> u64 {
    (tiles[0] as u64) | ((tiles[1] as u64) << 8) | ((tiles[2] as u64) << 16) | ((tiles[3] as u64)
        << 24) | ((tiles[4] as u64) << 32) | ((tiles[5] as u64) << 40) | ((tiles[6] as u64) << 48)
}

/// The cells of the rising diagonal through column `x` and row `y`.
pub open spec fn up_diagonal(x: u8, y: u8) -> u64 {
    if x >= y {
        DP << (((x - y) as u8) << 3u8)
    } else {
        DP >> (((y - x) as u8) << 3u8)
    }
}

/// The cells of the falling diagonal through column `x` and row `y`.
pub open spec fn down_diagonal(x: u8, y: u8) -> u64 {
    let z = (7 - y) as u8;
    if x >= z {
        DS << (((x - z) as u8) << 3u8)
    } else {
        DS >> (((z - x) as u8) << 3u8)
    }
}

/// The length of the run of columns, up to and with column `count - 1`, in
/// which `word` has a tile; and -1 once a run of four has been seen among
/// the first `count` columns.
pub open spec fn run_to(word: u64, count: nat) -> int
    decreases count,
{
    if count == 0 {
        0
    } else {
        let before = run_to(word, (count - 1) as nat);
        if before < 0 || before >= 4 {
            -1
        } else if (word >> (((count - 1) * 8) as u64)) & 0xff != 0 {
            before + 1
        } else {
            0
        }
    }
}

/// Whether `word` has a tile in four columns next to each other, among the
/// first seven.
pub open spec fn has_run(word: u64) -> bool {
    run_to(word, 7) < 0 || run_to(word, 7) >= 4
}

/// Whether the tiles hold four cells of a diagonal through column `x` and row
/// `y` in columns next to each other.
pub open spec fn aslant_win(tiles: [u8; 7], x: u8, y: u8) -> bool {
    has_run(up_diagonal(x, y) & board_word(tiles)) || has_run(
        down_diagonal(x, y) & board_word(tiles),
    )
}

/// Picks the cells of the rising diagonal through column `x` and row `y`.
pub fn gen_up_diagonal(x: u8, y: u8) -> (cells: u64)
    requires
        x <= 7,
        y <= 7,
    ensures
        cells == up_diagonal(x, y),
{
    if x >= y {
        let by: u8 = x - y;
        assert(by << 3u8 < 64) by (bit_vector)
            requires
                by <= 7,
        ;
        DP << (by << 3)
    } else {
        let by: u8 = y - x;
        assert(by << 3u8 < 64) by (bit_vector)
            requires
                by <= 7,
        ;
        DP >> (by << 3)
    }
}

/// Picks the cells of the falling diagonal through column `x` and row `y`.
pub fn gen_down_diagonal(x: u8, y: u8) -> (cells: u64)
    requires
        x <= 7,
        y <= 7,
    ensures
        cells == down_diagonal(x, y),
{
    let z = 7 - y;
    if x >= z {
        let by: u8 = x - z;
        assert(by << 3u8 < 64) by (bit_vector)
            requires
                by <= 7,
        ;
        DS << (by << 3)
    } else {
        let by: u8 = z - x;
        assert(by << 3u8 < 64) by (bit_vector)
            requires
                by <= 7,
        ;
        DS >> (by << 3)
    }
}

/// Tells whether `word` has a tile in four columns next to each other.
pub fn four_columns(word: u64) -> (r: bool)
    ensures
        r == has_run(word),
{
    let mut count: u8 = 0;
    let mut i: u8 = 0;
    while i < 7
        invariant
            i <= 7,
            0 <= count < 4,
            count == run_to(word, i as nat),
        decreases 7 - i,
    {
        let byte = (word >> ((i as u64) * 8)) & 0xff;
        if byte != 0 {
            count = count + 1;
        } else {
            count = 0;
        }
        i = i + 1;
        if count >= 4 {
            proof {
                lemma_run_stays(word, i as nat, 7);
            }
            return true;
        }
    }
    false
}

/// Once four columns in a row have been seen, they stay seen.
pub proof fn lemma_run_stays(word: u64, seen: nat, count: nat)
    requires
        seen <= count,
        run_to(word, seen) < 0 || run_to(word, seen) >= 4,
    ensures
        run_to(word, count) < 0 || run_to(word, count) >= 4,
    decreases count,
{
    if seen < count {
        lemma_run_stays(word, seen, (count - 1) as nat);
    }
}

/// Tells whether `board` has four tiles in columns next to each other on
/// the rising diagonal through column `x` and row `y`.
pub fn check_up_diagonal(board: u64, x: u8, y: u8) -> (r: bool)
    requires
        x <= 7,
        y <= 7,
    ensures
        r == has_run(up_diagonal(x, y) & board),
{
    four_columns(gen_up_diagonal(x, y) & board)
}

/// Tells whether `board` has four tiles in columns next to each other on
/// the falling diagonal through column `x` and row `y`.
pub fn check_down_diagonal(board: u64, x: u8, y: u8) -> (r: bool)
    requires
        x <= 7,
        y <= 7,
    ensures
        r == has_run(down_diagonal(x, y) & board),
{
    four_columns(gen_down_diagonal(x, y) & board)
}

/// Tells whether the tiles hold four in a line on one of the two diagonals
/// through column `x` and row `y`.
pub fn check_diagonals(board: &[u8; 7], x: u8, y: u8) -> (r: bool)
    requires
        x <= 7,
        y <= 7,
    ensures
        r == aslant_win(*board, x, y),
{
    let word: u64 = (board[0] as u64) | ((board[1] as u64) << 8) | ((board[2] as u64) << 16) | ((
    board[3] as u64) << 24) | ((board[4] as u64) << 32) | ((board[5] as u64) << 40) | ((
    board[6] as u64) << 48);
    check_up_diagonal(word, x, y) || check_down_diagonal(word, x, y)
}

/// Packs the tiles of one row into a word.
pub fn pack_row(tiles: &[u8; 7], row: u8) -> (word: u8)
    requires
        row < 8,
    ensures
        word == row_word(*tiles, row, 7),
{
    let mut bits: u8 = 0;
    let mut i: usize = 0;
    while i < 7
        invariant
            i <= 7,
            row < 8,
            bits == row_word(*tiles, row, i as nat),
        decreases 7 - i,
    {
        bits = bits | ((tiles[i] >> row) & 1);
        bits = bits << 1;
        i = i + 1;
    }
    bits
}

/// Tells whether the tiles of a team hold four in a line through the cell
/// at column `x` and row `y`, in a column that is now `height` high.
pub fn wins_through(tiles: &[u8; 7], x: u8, y: u8, height: u8) -> (r: bool)
    requires
        x < 7,
        y < 8,
    ensures
        r == (upright_win(tiles[x as int], height) || level_win(*tiles, y) || aslant_win(
            *tiles,
            x,
            y,
        )),
{
    let bits = tiles[x as usize];
    if height >= 4 {
        if (bits & 0b1111 == 0b1111) || (bits & 0b11110 == 0b11110) || (bits & 0b111100
            == 0b111100) {
            return true;
        }
    }
    let word = pack_row(tiles, y);
    if word & 0b11110 == 0b11110 || word & 0b111100 == 0b111100 || word & 0b1111000 == 0b1111000
        || word & 0b11110000 == 0b11110000 {
        return true;
    }
    check_diagonals(tiles, x, y)
}

/// A position of connect four: the columns, the team to move, and how the
/// game ended if it is over.
#[derive(Clone, Copy, Debug)]
pub struct C4State {
    board: [Column; 7],
    player: Team,
    game_result: Option<GameResult<Team>>,
}

/// The tiles of a team, column by column.
pub open spec fn tiles_of(board: [Column; 7], team: Team) -> [u8; 7] {
    match team {
        Team::One => [
            board[0].one,
            board[1].one,
            board[2].one,
            board[3].one,
            board[4].one,
            board[5].one,
            board[6].one,
        ],
        Team::Two => [
            board[0].two,
            board[1].two,
            board[2].two,
            board[3].two,
            board[4].two,
            board[5].two,
            board[6].two,
        ],
    }
}

/// A column after a team has dropped a tile into it.
pub open spec fn grown(column: Column, team: Team) -> Column {
    match team {
        Team::One => Column {
            one: column.one | (1u8 << column.height),
            two: column.two,
            height: (column.height + 1) as u8,
        },
        Team::Two => Column {
            one: column.one,
            two: column.two | (1u8 << column.height),
            height: (column.height + 1) as u8,
        },
    }
}

/// Whether every column is full.
pub open spec fn filled(board: [Column; 7]) -> bool {
    forall|i: int| 0 <= i < 7 ==> (#[trigger] board[i]).height >= ROWS
}

/// The drops that can be made into the first `count` columns: into those
/// that are not full, first column first.
pub open spec fn drops(board: [Column; 7], count: nat) -> Seq<C4Action>
    decreases count,
{
    if count == 0 {
        Seq::empty()
    } else if board[count - 1].height < ROWS {
        drops(board, (count - 1) as nat).push(C4Action { column: (count - 1) as u8 })
    } else {
        drops(board, (count - 1) as nat)
    }
}

/// The number of cells that are empty in the first `count` columns.
pub open spec fn room(board: [Column; 7], count: nat) -> nat
    decreases count,
{
    if count == 0 {
        0
    } else {
        room(board, (count - 1) as nat) + if board[count - 1].height < ROWS {
            (ROWS - board[count - 1].height) as nat
        } else {
            0nat
        }
    }
}

/// The number of tiles in the first `count` columns.
pub open spec fn tiles_in(board: [Column; 7], count: nat) -> nat
    decreases count,
{
    if count == 0 {
        0
    } else {
        tiles_in(board, (count - 1) as nat) + board[count - 1].height as nat
    }
}

/// A drop is among the drops exactly if its column is one of those looked
/// at and not full.
pub proof fn lemma_drops(board: [Column; 7], count: nat, action: C4Action)
    requires
        count <= 7,
    ensures
        drops(board, count).contains(action) <==> (action.column < count
            && board[action.column as int].height < ROWS),
    decreases count,
{
    if count > 0 {
        lemma_drops(board, (count - 1) as nat, action);
        let rest = drops(board, (count - 1) as nat);
        let last = C4Action { column: (count - 1) as u8 };
        if board[count - 1].height < ROWS {
            if rest.push(last).contains(action) {
                let k = choose|k: int| 0 <= k < rest.len() + 1 && rest.push(last)[k] == action;
                if k < rest.len() {
                    assert(rest[k] == action);
                }
            }
            if rest.contains(action) {
                let k = choose|k: int| 0 <= k < rest.len() && rest[k] == action;
                assert(rest.push(last)[k] == action);
            }
            if action == last {
                assert(rest.push(last)[rest.len() as int] == action);
            }
        }
    }
}

/// The word of a column holds four set bits in a row among its lowest six
/// exactly where the tiles hold four cells, one above the other, among the
/// lowest six of the column.
pub proof fn lemma_upright_is_a_line(tiles: [u8; 7], x: int, height: u8)
    requires
        0 <= x < 7,
    ensures
        upright_win(tiles[x], height) == (height >= 4 && four_upright(tiles, x)),
{
    let bits = tiles[x];
    assert((bits & 0b1111 == 0b1111) == ((bits >> 0u8) & 1 == 1 && (bits >> 1u8) & 1 == 1 && (bits
        >> 2u8) & 1 == 1 && (bits >> 3u8) & 1 == 1) && (bits & 0b11110 == 0b11110) == ((bits >> 1u8)
        & 1 == 1 && (bits >> 2u8) & 1 == 1 && (bits >> 3u8) & 1 == 1 && (bits >> 4u8) & 1 == 1) && (
    bits & 0b111100 == 0b111100) == ((bits >> 2u8) & 1 == 1 && (bits >> 3u8) & 1 == 1 && (bits
        >> 4u8) & 1 == 1 && (bits >> 5u8) & 1 == 1)) by (bit_vector);
}

/// The word of a row holds four set bits in a row exactly where the tiles
/// hold four cells side by side in that row.
pub proof fn lemma_level_is_a_line(tiles: [u8; 7], y: u8)
    requires
        y < 8,
    ensures
        level_win(tiles, y) == four_level(tiles, y as int),
{
    reveal_with_fuel(row_word, 8);
    let (t0, t1, t2, t3, t4, t5, t6) = (
        tiles[0],
        tiles[1],
        tiles[2],
        tiles[3],
        tiles[4],
        tiles[5],
        tiles[6],
    );
    let w0: u8 = (0u8 | ((t0 >> y) & 1)) << 1u8;
    let w1: u8 = (w0 | ((t1 >> y) & 1)) << 1u8;
    let w2: u8 = (w1 | ((t2 >> y) & 1)) << 1u8;
    let w3: u8 = (w2 | ((t3 >> y) & 1)) << 1u8;
    let w4: u8 = (w3 | ((t4 >> y) & 1)) << 1u8;
    let w5: u8 = (w4 | ((t5 >> y) & 1)) << 1u8;
    let w6: u8 = (w5 | ((t6 >> y) & 1)) << 1u8;
    assert(row_word(tiles, y, 7) == w6);
    assert({
        &&& (w6 & 0b11110 == 0b11110) == ((t3 >> y) & 1 == 1 && (t4 >> y) & 1 == 1 && (t5 >> y) & 1
            == 1 && (t6 >> y) & 1 == 1)
        &&& (w6 & 0b111100 == 0b111100) == ((t2 >> y) & 1 == 1 && (t3 >> y) & 1 == 1 && (t4 >> y) & 1
            == 1 && (t5 >> y) & 1 == 1)
        &&& (w6 & 0b1111000 == 0b1111000) == ((t1 >> y) & 1 == 1 && (t2 >> y) & 1 == 1 && (t3 >> y)
            & 1 == 1 && (t4 >> y) & 1 == 1)
        &&& (w6 & 0b11110000 == 0b11110000) == ((t0 >> y) & 1 == 1 && (t1 >> y) & 1 == 1 && (t2 >> y)
            & 1 == 1 && (t3 >> y) & 1 == 1)
    }) by (bit_vector)
        requires
            y < 8,
            w0 == (0u8 | ((t0 >> y) & 1)) << 1u8,
            w1 == (w0 | ((t1 >> y) & 1)) << 1u8,
            w2 == (w1 | ((t2 >> y) & 1)) << 1u8,
            w3 == (w2 | ((t3 >> y) & 1)) << 1u8,
            w4 == (w3 | ((t4 >> y) & 1)) << 1u8,
            w5 == (w4 | ((t5 >> y) & 1)) << 1u8,
            w6 == (w5 | ((t6 >> y) & 1)) << 1u8,
    ;
}

/// Whether `word` has a tile in column `i`: a byte of it stands for a
/// column.
pub open spec fn lit(word: u64, i: int) -> bool {
    (word >> ((i * 8) as u64)) & 0xff != 0
}

/// A word has a run exactly where four columns next to each other, among the
/// first seven, have a tile in it.
pub proof fn lemma_has_run(word: u64)
    ensures
        has_run(word) == ((lit(word, 0) && lit(word, 1) && lit(word, 2) && lit(word, 3)) || (lit(
            word,
            1,
        ) && lit(word, 2) && lit(word, 3) && lit(word, 4)) || (lit(word, 2) && lit(word, 3) && lit(
            word,
            4,
        ) && lit(word, 5)) || (lit(word, 3) && lit(word, 4) && lit(word, 5) && lit(word, 6))),
{
    reveal_with_fuel(run_to, 8);
}

/// The cells that the tiles hold on the rising diagonal through column `x`
/// and row `y` are the columns in which the diagonal's word has a tile.
proof fn lemma_rising_cells(tiles: [u8; 7], x: u8, y: u8)
    requires
        x < 7,
        y < 8,
    ensures
        forall|i: int|
            0 <= i < 7 ==> #[trigger] lit(up_diagonal(x, y) & board_word(tiles), i) == holds(
                tiles,
                i,
                i + y - x,
            ),
{
    let (t0, t1, t2, t3, t4, t5, t6) = (
        tiles[0],
        tiles[1],
        tiles[2],
        tiles[3],
        tiles[4],
        tiles[5],
        tiles[6],
    );
    let bw = board_word(tiles);
    if x >= y {
        let d = (x - y) as u8;
        assert({
            &&& ((((0x8040201008040201u64 << (d << 3u8)) & bw) >> 0u64) & 0xff != 0) == (d <= 0 && (t0 >> ((0 - d) as u8)) & 1 == 1)
            &&& ((((0x8040201008040201u64 << (d << 3u8)) & bw) >> 8u64) & 0xff != 0) == (d <= 1 && (t1 >> ((1 - d) as u8)) & 1 == 1)
            &&& ((((0x8040201008040201u64 << (d << 3u8)) & bw) >> 16u64) & 0xff != 0) == (d <= 2 && (t2 >> ((2 - d) as u8)) & 1 == 1)
            &&& ((((0x8040201008040201u64 << (d << 3u8)) & bw) >> 24u64) & 0xff != 0) == (d <= 3 && (t3 >> ((3 - d) as u8)) & 1 == 1)
            &&& ((((0x8040201008040201u64 << (d << 3u8)) & bw) >> 32u64) & 0xff != 0) == (d <= 4 && (t4 >> ((4 - d) as u8)) & 1 == 1)
            &&& ((((0x8040201008040201u64 << (d << 3u8)) & bw) >> 40u64) & 0xff != 0) == (d <= 5 && (t5 >> ((5 - d) as u8)) & 1 == 1)
            &&& ((((0x8040201008040201u64 << (d << 3u8)) & bw) >> 48u64) & 0xff != 0) == (d <= 6 && (t6 >> ((6 - d) as u8)) & 1 == 1)
        }) by (bit_vector)
            requires
                bw == (t0 as u64) | ((t1 as u64) << 8) | ((t2 as u64) << 16) | ((t3 as u64) << 24) | ((t4 as u64) << 32) | ((t5 as u64) << 40) | ((t6 as u64) << 48),
                d < 7,
        ;
    } else {
        let d = (y - x) as u8;
        assert({
            &&& ((((0x8040201008040201u64 >> (d << 3u8)) & bw) >> 0u64) & 0xff != 0) == (d + 0 < 8 && (t0 >> ((d + 0) as u8)) & 1 == 1)
            &&& ((((0x8040201008040201u64 >> (d << 3u8)) & bw) >> 8u64) & 0xff != 0) == (d + 1 < 8 && (t1 >> ((d + 1) as u8)) & 1 == 1)
            &&& ((((0x8040201008040201u64 >> (d << 3u8)) & bw) >> 16u64) & 0xff != 0) == (d + 2 < 8 && (t2 >> ((d + 2) as u8)) & 1 == 1)
            &&& ((((0x8040201008040201u64 >> (d << 3u8)) & bw) >> 24u64) & 0xff != 0) == (d + 3 < 8 && (t3 >> ((d + 3) as u8)) & 1 == 1)
            &&& ((((0x8040201008040201u64 >> (d << 3u8)) & bw) >> 32u64) & 0xff != 0) == (d + 4 < 8 && (t4 >> ((d + 4) as u8)) & 1 == 1)
            &&& ((((0x8040201008040201u64 >> (d << 3u8)) & bw) >> 40u64) & 0xff != 0) == (d + 5 < 8 && (t5 >> ((d + 5) as u8)) & 1 == 1)
            &&& ((((0x8040201008040201u64 >> (d << 3u8)) & bw) >> 48u64) & 0xff != 0) == (d + 6 < 8 && (t6 >> ((d + 6) as u8)) & 1 == 1)
        }) by (bit_vector)
            requires
                bw == (t0 as u64) | ((t1 as u64) << 8) | ((t2 as u64) << 16) | ((t3 as u64) << 24) | ((t4 as u64) << 32) | ((t5 as u64) << 40) | ((t6 as u64) << 48),
                d < 8,
        ;
    }
}

/// The cells that the tiles hold on the falling diagonal through column `x`
/// and row `y` are the columns in which the diagonal's word has a tile.
proof fn lemma_falling_cells(tiles: [u8; 7], x: u8, y: u8)
    requires
        x < 7,
        y < 8,
    ensures
        forall|i: int|
            0 <= i < 7 ==> #[trigger] lit(down_diagonal(x, y) & board_word(tiles), i) == holds(
                tiles,
                i,
                x + y - i,
            ),
{
    let (t0, t1, t2, t3, t4, t5, t6) = (
        tiles[0],
        tiles[1],
        tiles[2],
        tiles[3],
        tiles[4],
        tiles[5],
        tiles[6],
    );
    let bw = board_word(tiles);
    let z = (7 - y) as u8;
    if x >= z {
        let d = (x - z) as u8;
        assert({
            &&& ((((0x0102040810204080u64 << (d << 3u8)) & bw) >> 0u64) & 0xff != 0) == (d <= 0 && (t0 >> ((7 - (0 - d)) as u8)) & 1 == 1)
            &&& ((((0x0102040810204080u64 << (d << 3u8)) & bw) >> 8u64) & 0xff != 0) == (d <= 1 && (t1 >> ((7 - (1 - d)) as u8)) & 1 == 1)
            &&& ((((0x0102040810204080u64 << (d << 3u8)) & bw) >> 16u64) & 0xff != 0) == (d <= 2 && (t2 >> ((7 - (2 - d)) as u8)) & 1 == 1)
            &&& ((((0x0102040810204080u64 << (d << 3u8)) & bw) >> 24u64) & 0xff != 0) == (d <= 3 && (t3 >> ((7 - (3 - d)) as u8)) & 1 == 1)
            &&& ((((0x0102040810204080u64 << (d << 3u8)) & bw) >> 32u64) & 0xff != 0) == (d <= 4 && (t4 >> ((7 - (4 - d)) as u8)) & 1 == 1)
            &&& ((((0x0102040810204080u64 << (d << 3u8)) & bw) >> 40u64) & 0xff != 0) == (d <= 5 && (t5 >> ((7 - (5 - d)) as u8)) & 1 == 1)
            &&& ((((0x0102040810204080u64 << (d << 3u8)) & bw) >> 48u64) & 0xff != 0) == (d <= 6 && (t6 >> ((7 - (6 - d)) as u8)) & 1 == 1)
        }) by (bit_vector)
            requires
                bw == (t0 as u64) | ((t1 as u64) << 8) | ((t2 as u64) << 16) | ((t3 as u64) << 24) | ((t4 as u64) << 32) | ((t5 as u64) << 40) | ((t6 as u64) << 48),
                d < 7,
        ;
    } else {
        let d = (z - x) as u8;
        assert({
            &&& ((((0x0102040810204080u64 >> (d << 3u8)) & bw) >> 0u64) & 0xff != 0) == (d + 0 < 8 && (t0 >> ((7 - (d + 0)) as u8)) & 1 == 1)
            &&& ((((0x0102040810204080u64 >> (d << 3u8)) & bw) >> 8u64) & 0xff != 0) == (d + 1 < 8 && (t1 >> ((7 - (d + 1)) as u8)) & 1 == 1)
            &&& ((((0x0102040810204080u64 >> (d << 3u8)) & bw) >> 16u64) & 0xff != 0) == (d + 2 < 8 && (t2 >> ((7 - (d + 2)) as u8)) & 1 == 1)
            &&& ((((0x0102040810204080u64 >> (d << 3u8)) & bw) >> 24u64) & 0xff != 0) == (d + 3 < 8 && (t3 >> ((7 - (d + 3)) as u8)) & 1 == 1)
            &&& ((((0x0102040810204080u64 >> (d << 3u8)) & bw) >> 32u64) & 0xff != 0) == (d + 4 < 8 && (t4 >> ((7 - (d + 4)) as u8)) & 1 == 1)
            &&& ((((0x0102040810204080u64 >> (d << 3u8)) & bw) >> 40u64) & 0xff != 0) == (d + 5 < 8 && (t5 >> ((7 - (d + 5)) as u8)) & 1 == 1)
            &&& ((((0x0102040810204080u64 >> (d << 3u8)) & bw) >> 48u64) & 0xff != 0) == (d + 6 < 8 && (t6 >> ((7 - (d + 6)) as u8)) & 1 == 1)
        }) by (bit_vector)
            requires
                bw == (t0 as u64) | ((t1 as u64) << 8) | ((t2 as u64) << 16) | ((t3 as u64) << 24) | ((t4 as u64) << 32) | ((t5 as u64) << 40) | ((t6 as u64) << 48),
                d < 8,
        ;
    }
}

/// The diagonals' words have a run exactly where the tiles hold four cells
/// next to each other on the rising or on the falling diagonal through
/// column `x` and row `y`.
pub proof fn lemma_aslant_is_a_line(tiles: [u8; 7], x: u8, y: u8)
    requires
        x < 7,
        y < 8,
    ensures
        aslant_win(tiles, x, y) == (four_rising(tiles, x as int, y as int) || four_falling(
            tiles,
            x as int,
            y as int,
        )),
{
    let up = up_diagonal(x, y) & board_word(tiles);
    let down = down_diagonal(x, y) & board_word(tiles);
    lemma_has_run(up);
    lemma_has_run(down);
    lemma_rising_cells(tiles, x, y);
    lemma_falling_cells(tiles, x, y);
    assert(lit(up, 0) == holds(tiles, 0, 0 + y - x));
    assert(lit(up, 1) == holds(tiles, 1, 1 + y - x));
    assert(lit(up, 2) == holds(tiles, 2, 2 + y - x));
    assert(lit(up, 3) == holds(tiles, 3, 3 + y - x));
    assert(lit(up, 4) == holds(tiles, 4, 4 + y - x));
    assert(lit(up, 5) == holds(tiles, 5, 5 + y - x));
    assert(lit(up, 6) == holds(tiles, 6, 6 + y - x));
    assert(lit(down, 0) == holds(tiles, 0, x + y - 0));
    assert(lit(down, 1) == holds(tiles, 1, x + y - 1));
    assert(lit(down, 2) == holds(tiles, 2, x + y - 2));
    assert(lit(down, 3) == holds(tiles, 3, x + y - 3));
    assert(lit(down, 4) == holds(tiles, 4, x + y - 4));
    assert(lit(down, 5) == holds(tiles, 5, x + y - 5));
    assert(lit(down, 6) == holds(tiles, 6, x + y - 6));
}

/// A tile more in a column that is not full leaves one cell less empty.
pub proof fn lemma_room_after(board: [Column; 7], after: [Column; 7], at: int, count: nat)
    requires
        0 <= at < 7,
        count <= 7,
        board[at].height < ROWS,
        after[at].height == board[at].height + 1,
        forall|i: int| 0 <= i < 7 && i != at ==> after[i] == board[i],
    ensures
        room(after, count) + (if at < count {
            1nat
        } else {
            0nat
        }) == room(board, count),
    decreases count,
{
    if count > 0 {
        lemma_room_after(board, after, at, (count - 1) as nat);
    }
}

impl C4State {
    /// The columns of the board.
    pub closed spec fn spec_board(&self) -> [Column; 7] {
        self.board
    }

    /// The team to move.
    pub closed spec fn spec_player(&self) -> Team {
        self.player
    }

    /// How the game ended, if it is over.
    pub closed spec fn spec_result(&self) -> Option<GameResult<Team>> {
        self.game_result
    }

    /// No column is higher than six tiles.
    #[verifier::type_invariant]
    spec fn within_bounds(self) -> bool {
        forall|i: int| 0 <= i < 7 ==> (#[trigger] self.board[i]).height <= ROWS
    }

    /// The position after the team to move has dropped a tile into the
    /// column at `at`.
    pub closed spec fn dropped(&self, at: int) -> Self {
        let column = grown(self.board[at], self.player);
        let board = vstd::array::spec_array_update(self.board, at, column);
        let tiles = tiles_of(board, self.player);
        let won = upright_win(tiles[at], column.height) || level_win(tiles, self.board[at].height)
            || aslant_win(tiles, at as u8, self.board[at].height);
        C4State {
            board,
            player: self.player.spec_opponent(),
            game_result: if won {
                Some(GameResult::Win(self.player))
            } else if filled(board) {
                Some(GameResult::Draw)
            } else {
                None
            },
        }
    }

    /// What a drop changes: its column gains a tile of the team to move, the
    /// other columns stay, the other team is to move, and the game is won
    /// where that team then holds four cells in a line on the column, the
    /// row or a diagonal of the new tile, or drawn where the board is then
    /// full. No column of a position is higher than six tiles.
    pub proof fn lemma_dropped(&self, at: int)
        requires
            0 <= at < 7,
            self.spec_board()[at].height <= ROWS,
        ensures
            self.dropped(at).spec_player() == self.spec_player().spec_opponent(),
            self.dropped(at).spec_board()[at] == grown(self.spec_board()[at], self.spec_player()),
            forall|i: int|
                0 <= i < 7 && i != at ==> #[trigger] self.dropped(at).spec_board()[i]
                    == self.spec_board()[i],
            self.dropped(at).spec_result() == (if line_through(
                tiles_of(self.dropped(at).spec_board(), self.spec_player()),
                at,
                self.spec_board()[at].height as int,
                self.dropped(at).spec_board()[at].height as int,
            ) {
                Some(GameResult::Win(self.spec_player()))
            } else if filled(self.dropped(at).spec_board()) {
                Some(GameResult::Draw)
            } else {
                None
            }),
    {
        broadcast use vstd::array::group_array_axioms;

        let tiles = tiles_of(self.dropped(at).spec_board(), self.spec_player());
        let row = self.spec_board()[at].height;
        lemma_upright_is_a_line(tiles, at, self.dropped(at).spec_board()[at].height);
        lemma_level_is_a_line(tiles, row);
        lemma_aslant_is_a_line(tiles, at as u8, row);
    }

    /// Returns the column at the given position.
    pub fn column(&self, at: usize) -> (column: Column)
        requires
            at < 7,
        ensures
            column == self.spec_board()[at as int],
            column.height <= ROWS,
    {
        proof {
            use_type_invariant(self);
        }
        self.board[at]
    }

    /// Returns the number of tiles on the board.
    pub fn tiles(&self) -> (n: u8)
        ensures
            n == tiles_in(self.spec_board(), 7),
            n <= 42,
    {
        proof {
            use_type_invariant(self);
        }
        let mut n: u8 = 0;
        let mut i: usize = 0;
        while i < 7
            invariant
                i <= 7,
                n == tiles_in(self.board, i as nat),
                n <= 6 * i,
                forall|j: int| 0 <= j < 7 ==> (#[trigger] self.board[j]).height <= ROWS,
            decreases 7 - i,
        {
            n = n + self.board[i].height;
            i = i + 1;
        }
        n
    }
}

impl GwAction<Connect4> for C4Action {
}

impl Game for Connect4 {
    type State = C4State;

    type Action = C4Action;

    type Team = Team;

    type GameResult = GameResult<Team>;

    closed spec fn spec_initial_state() -> C4State {
        C4State {
            board: vstd::array::spec_array_fill_for_copy_type(
                Column { one: 0, two: 0, height: 0 },
            ),
            player: Team::One,
            game_result: None,
        }
    }

    open spec fn spec_starting_team() -> Team {
        Team::One
    }

    fn initial_state() -> (s: C4State) {
        let board = [Column { one: 0, two: 0, height: 0 };7];
        C4State { board, player: Team::One, game_result: None }
    }

    fn starting_team() -> (t: Team) {
        Team::One
    }
}

impl GwState<Connect4> for C4State {
    open spec fn spec_actions(&self) -> Seq<C4Action> {
        if self.spec_result() is Some {
            Seq::empty()
        } else {
            drops(self.spec_board(), 7)
        }
    }

    open spec fn spec_apply(&self, action: C4Action) -> Self {
        self.dropped(action.column as int)
    }

    open spec fn spec_team_to_move(&self) -> Team {
        self.spec_player()
    }

    open spec fn spec_is_terminal(&self) -> bool {
        self.spec_result() is Some
    }

    open spec fn spec_game_result(&self) -> Option<GameResult<Team>> {
        self.spec_result()
    }

    open spec fn spec_rank(&self) -> nat {
        room(self.spec_board(), 7)
    }

    fn actions(&self) -> (r: Vec<C4Action>) {
        let mut actions: Vec<C4Action> = Vec::new();
        if self.game_result.is_some() {
            return actions;
        }
        let mut i: u8 = 0;
        while i < 7
            invariant
                i <= 7,
                actions@ == drops(self.board, i as nat),
            decreases 7 - i,
        {
            if self.board[i as usize].height < ROWS {
                actions.push(C4Action { column: i });
            }
            i = i + 1;
        }
        actions
    }

    fn is_legal(&self, action: &C4Action) -> (r: bool) {
        proof {
            lemma_drops(self.board, 7, *action);
        }
        self.game_result.is_none() && action.column < 7 && self.board[action.column as usize].height
            < ROWS
    }

    fn team_to_move(&self) -> (r: Team) {
        self.player
    }

    fn apply_action(&self, action: &C4Action) -> (r: Self) {
        proof {
            use_type_invariant(self);
            lemma_drops(self.board, 7, *action);
            self.lemma_dropped(action.column as int);
        }
        let idx = action.column as usize;
        let mut new_board = self.board;
        let mut new_col = new_board[idx];
        let old_height = new_col.height;
        match self.player {
            Team::One => {
                new_col.one = new_col.one | (1u8 << old_height);
            },
            Team::Two => {
                new_col.two = new_col.two | (1u8 << old_height);
            },
        }
        new_col.height = new_col.height + 1;
        new_board[idx] = new_col;
        let proxy = match self.player {
            Team::One => [
                new_board[0].one,
                new_board[1].one,
                new_board[2].one,
                new_board[3].one,
                new_board[4].one,
                new_board[5].one,
                new_board[6].one,
            ],
            Team::Two => [
                new_board[0].two,
                new_board[1].two,
                new_board[2].two,
                new_board[3].two,
                new_board[4].two,
                new_board[5].two,
                new_board[6].two,
            ],
        };
        proof {
            broadcast use vstd::array::group_array_axioms;

            assert(new_board =~= self.dropped(action.column as int).board);
            assert(proxy =~= tiles_of(new_board, self.player));
        }
        let won = wins_through(&proxy, action.column, old_height, new_col.height);
        let game_result = if won {
            Some(GameResult::Win(self.player))
        } else if all_full(&new_board) {
            Some(GameResult::Draw)
        } else {
            None
        };
        C4State { board: new_board, player: self.player.opponent(), game_result }
    }

    fn is_terminal(&self) -> (r: bool) {
        self.game_result.is_some()
    }

    fn game_result(&self) -> (r: Option<GameResult<Team>>) {
        self.game_result
    }

    proof fn lemma_over_has_result(&self) {
    }

    proof fn lemma_clone_exact(a: Self, b: Self) {
    }

    proof fn lemma_teams_alternate(&self, action: C4Action) {
        lemma_drops(self.spec_board(), 7, action);
        self.lemma_dropped(action.column as int);
    }

    proof fn lemma_rank_decreases(&self, action: C4Action) {
        lemma_drops(self.spec_board(), 7, action);
        self.lemma_dropped(action.column as int);
        lemma_room_after(
            self.spec_board(),
            self.dropped(action.column as int).spec_board(),
            action.column as int,
            7,
        );
    }
}

/// Tells whether every column is full.
pub fn all_full(board: &[Column; 7]) -> (r: bool)
    ensures
        r == filled(*board),
{
    let mut i: usize = 0;
    while i < 7
        invariant
            i <= 7,
            forall|j: int| 0 <= j < i ==> (#[trigger] board[j]).height >= ROWS,
        decreases 7 - i,
    {
        if board[i].height < ROWS {
            return false;
        }
        i = i + 1;
    }
    true
}

/// A column with the cell at `row` made to hold `tile`.
pub open spec fn retiled(column: Column, row: u8, tile: Tile) -> Column {
    let mask = 1u8 << row;
    match tile {
        Tile::Empty => Column {
            one: column.one & !mask,
            two: column.two & !mask,
            height: column.height,
        },
        Tile::Colour(Team::One) => Column {
            one: column.one | mask,
            two: column.two & !mask,
            height: column.height,
        },
        Tile::Colour(Team::Two) => Column {
            one: column.one & !mask,
            two: column.two | mask,
            height: column.height,
        },
    }
}

impl C4State {
    /// Makes the cell at column `x` and row `y` hold `tile`. The heights of
    /// the columns, the team to move and the result of the game stay as they
    /// are.
    pub fn set_tile(&mut self, x: usize, y: usize, tile: Tile)
        requires
            x < 7,
            y < 8,
        ensures
            final(self).spec_board()[x as int] == retiled(old(self).spec_board()[x as int], y as u8, tile),
            forall|i: int|
                0 <= i < 7 && i != x ==> #[trigger] final(self).spec_board()[i] == old(
                    self,
                ).spec_board()[i],
            final(self).spec_player() == old(self).spec_player(),
            final(self).spec_result() == old(self).spec_result(),
    {
        proof {
            use_type_invariant(&*self);
        }
        let mut col = self.board[x];
        let mask: u8 = 1u8 << (y as u8);
        match tile {
            Tile::Empty => {
                col.one = col.one & !mask;
                col.two = col.two & !mask;
            },
            Tile::Colour(Team::One) => {
                col.one = col.one | mask;
                col.two = col.two & !mask;
            },
            Tile::Colour(Team::Two) => {
                col.one = col.one & !mask;
                col.two = col.two | mask;
            },
        }
        let mut board = self.board;
        board[x] = col;
        self.board = board;
    }
}

/// The first column at or after `from` that is not full, and 7 where there
/// is none.
pub open spec fn next_open(heights: [u8; 7], from: nat) -> nat
    decreases 7 - from,
{
    if from >= 7 {
        7
    } else if heights[from as int] < ROWS {
        from
    } else {
        next_open(heights, from + 1)
    }
}

/// Walks the actions of a position, first column first.
pub struct C4ActionIter {
    idx: usize,
    heights: [u8; 7],
}

impl C4ActionIter {
    /// The column at which the walk stands.
    pub closed spec fn position(&self) -> nat {
        self.idx as nat
    }

    /// The heights of the columns as the walk sees them.
    pub closed spec fn heights(&self) -> [u8; 7] {
        self.heights
    }

    /// Starts a walk over the actions of `state`. Where the game is over the
    /// walk stands at its end.
    pub fn new(state: C4State) -> (it: Self)
        ensures
            state.spec_result() is Some ==> it.position() == 7,
            state.spec_result() is None ==> it.position() == 0 && forall|i: int|
                0 <= i < 7 ==> #[trigger] it.heights()[i] == state.spec_board()[i].height,
    {
        if state.game_result.is_some() {
            return C4ActionIter { idx: 7, heights: [0;7] };
        }
        let heights = [
            state.board[0].height,
            state.board[1].height,
            state.board[2].height,
            state.board[3].height,
            state.board[4].height,
            state.board[5].height,
            state.board[6].height,
        ];
        C4ActionIter { idx: 0, heights }
    }

    /// Hands out the drop into the next column that is not full, or nothing
    /// when no such column is left.
    pub fn next(&mut self) -> (r: Option<C4Action>)
        ensures
            final(self).heights() == old(self).heights(),
            next_open(old(self).heights(), old(self).position()) < 7 ==> {
                &&& r == Some(
                    C4Action { column: next_open(old(self).heights(), old(self).position()) as u8 },
                )
                &&& final(self).position() == next_open(old(self).heights(), old(self).position())
                    + 1
            },
            next_open(old(self).heights(), old(self).position()) >= 7 ==> {
                &&& r is None
                &&& final(self).position() >= 7
            },
    {
        while self.idx < 7
            invariant
                self.heights == old(self).heights,
                next_open(self.heights, self.idx as nat) == next_open(
                    old(self).heights,
                    old(self).idx as nat,
                ),
            decreases 7 - self.idx,
        {
            if self.heights[self.idx] >= ROWS {
                self.idx = self.idx + 1;
            } else {
                let action = C4Action { column: self.idx as u8 };
                self.idx = self.idx + 1;
                return Some(action);
            }
        }
        None
    }
}

/// The tiles and the height of each of the first `count` columns, seven bits
/// a column: the tiles of the first team below the bit at the column's
/// height.
pub open spec fn board_key(board: [Column; 7], count: nat) -> u64
    decreases count,
{
    if count == 0 {
        0
    } else {
        board_key(board, (count - 1) as nat) | ((((1u64 << (board[count - 1].height as u64))
            | (board[count - 1].one as u64)) & 0x7f) << (((count - 1) * 7) as u64))
    }
}

impl TranspositionHash for C4State {
    /// The key of the board. It is never 0: the bit at a column's height is
    /// always set.
    open spec fn spec_hash(&self) -> u64 {
        board_key(self.spec_board(), 7)
    }

    fn hash(&self) -> (h: u64) {
        proof {
            use_type_invariant(self);
        }
        let mut key: u64 = 0;
        let mut i: usize = 0;
        while i < 7
            invariant
                i <= 7,
                key == board_key(self.board, i as nat),
                forall|j: int| 0 <= j < 7 ==> (#[trigger] self.board[j]).height <= ROWS,
            decreases 7 - i,
        {
            let column = self.board[i];
            let word: u64 = ((1u64 << (column.height as u64)) | (column.one as u64)) & 0x7f;
            key = key | (word << ((i as u64) * 7));
            i = i + 1;
        }
        key
    }
}

/// What a position is worth to a team: where the game is won, 1000 less the
/// number of tiles on the board for the winner and the negative of that for
/// the loser, so that a fast win is worth more; and 0 otherwise.
pub open spec fn c4_score(state: C4State, team: Team) -> i32 {
    match state.spec_result() {
        Some(GameResult::Win(winner)) => {
            let tiles = tiles_in(state.spec_board(), 7) as int;
            if winner == team {
                (1000 - tiles) as i32
            } else {
                (tiles - 1000) as i32
            }
        },
        _ => 0i32,
    }
}

/// Scores a position of connect four by how the game ended, and how fast.
pub struct C4Heuristic;

impl Evaluator<Connect4> for C4Heuristic {
    open spec fn scoring(&self) -> spec_fn(C4State, Team) -> i32 {
        |state: C4State, team: Team| c4_score(state, team)
    }

    /// The evaluator never fails.
    open spec fn failures(&self) -> Set<Error> {
        Set::empty()
    }

    fn evaluate_for(&mut self, state: &C4State, team: &Team) -> (r: Result<i32, Error>) {
        let score: i32 = {
            match state.game_result() {
                Some(GameResult::Win(winner)) => {
                    let turn = state.tiles() as i32;
                    if winner == *team {
                        1000 - turn
                    } else {
                        -1000 + turn
                    }
                },
                Some(GameResult::Draw) => 0,
                None => 0,
            }
        };
        Ok(score)
    }
}

/// The tile that a character of a drawn board stands for: a button for an
/// empty cell, a red disc for a tile of the first team, a yellow disc for one
/// of the second.
pub open spec fn spec_tile_of(c: char) -> Option<Tile> {
    if c == '\u{1F518}' {
        Some(Tile::Empty)
    } else if c == '\u{1F534}' {
        Some(Tile::Colour(Team::One))
    } else if c == '\u{1F7E1}' {
        Some(Tile::Colour(Team::Two))
    } else {
        None
    }
}

/// Whether a character of a drawn board stands for nothing: a space or the
/// end of a line.
pub open spec fn blank(c: char) -> bool {
    c == ' ' || c == '\n'
}

/// The cells that the first `count` characters of a drawn board stand for,
/// and nothing where one of them stands for no cell and is not blank.
pub open spec fn cells_of(text: Seq<char>, count: nat) -> Option<Seq<Tile>>
    decreases count,
{
    if count == 0 {
        Some(Seq::empty())
    } else {
        match cells_of(text, (count - 1) as nat) {
            None => None,
            Some(cells) => if blank(text[count - 1]) {
                Some(cells)
            } else {
                match spec_tile_of(text[count - 1]) {
                    Some(tile) => Some(cells.push(tile)),
                    None => None,
                }
            },
        }
    }
}

/// The board on which the first `count` of the cells are laid out: a board
/// is drawn row by row from the top, so the cell at position `i` lies in
/// column `i % 7` and in row `5 - i / 7`.
pub open spec fn laid(cells: Seq<Tile>, count: nat) -> [Column; 7]
    decreases count,
{
    if count == 0 {
        vstd::array::spec_array_fill_for_copy_type(Column { one: 0, two: 0, height: 0 })
    } else {
        let before = laid(cells, (count - 1) as nat);
        let at = (count - 1) % 7;
        vstd::array::spec_array_update(
            before,
            at,
            retiled(before[at], (5 - (count - 1) / 7) as u8, cells[count - 1]),
        )
    }
}

/// The number of tiles among the first `count` cells.
pub open spec fn stones(cells: Seq<Tile>, count: nat) -> nat
    decreases count,
{
    if count == 0 {
        0
    } else {
        stones(cells, (count - 1) as nat) + if cells[count - 1] != Tile::Empty {
            1nat
        } else {
            0nat
        }
    }
}

/// The number of cells among the lowest `rows` of a column that hold a tile.
pub open spec fn counted(column: Column, rows: nat) -> nat
    decreases rows,
{
    if rows == 0 {
        0
    } else {
        counted(column, (rows - 1) as nat) + if column.spec_tile((rows - 1) as u8) != Tile::Empty {
            1nat
        } else {
            0nat
        }
    }
}

/// Tells the tile that a character of a drawn board stands for.
pub fn tile_of(c: char) -> (tile: Option<Tile>)
    ensures
        tile == spec_tile_of(c),
{
    if c == '\u{1F518}' {
        Some(Tile::Empty)
    } else if c == '\u{1F534}' {
        Some(Tile::Colour(Team::One))
    } else if c == '\u{1F7E1}' {
        Some(Tile::Colour(Team::Two))
    } else {
        None
    }
}

/// Counts the cells among the lowest six of a column that hold a tile.
pub fn count_tiles(column: &Column) -> (n: u8)
    ensures
        n == counted(*column, 6),
        n <= 6,
{
    let mut n: u8 = 0;
    let mut row: u8 = 0;
    while row < 6
        invariant
            row <= 6,
            n <= row,
            n == counted(*column, row as nat),
        decreases 6 - row,
    {
        let tile = column.tile(row);
        let holds = match tile {
            Tile::Empty => false,
            Tile::Colour(_) => true,
        };
        if holds {
            n = n + 1;
        }
        row = row + 1;
    }
    n
}

impl C4State {
    /// Reads a position from a drawn board: six rows of seven cells, the top
    /// row first, in which spaces and line ends stand for nothing. The first
    /// team is to move if the tiles are even in number, the second if they
    /// are odd; the height of a column is the number of its tiles; the result
    /// is as given. The board must hold nothing but cells and blanks, and no
    /// more than six rows of cells.
    pub fn from_pretty(pretty: &str, game_result: Option<GameResult<Team>>) -> (state: Self)
        requires
            cells_of(pretty@, pretty@.len()) matches Some(cells) && cells.len() <= 42,
        ensures
            ({
                let cells = cells_of(pretty@, pretty@.len()).unwrap();
                let board = laid(cells, cells.len());
                &&& state.spec_result() == game_result
                &&& state.spec_player() == (if stones(cells, cells.len()) % 2 == 0 {
                    Team::One
                } else {
                    Team::Two
                })
                &&& forall|i: int|
                    0 <= i < 7 ==> {
                        &&& (#[trigger] state.spec_board()[i]).one == board[i].one
                        &&& state.spec_board()[i].two == board[i].two
                        &&& state.spec_board()[i].height == counted(board[i], 6)
                    }
            }),
    {
        match Self::try_from_pretty(pretty, game_result) {
            Some(state) => state,
            None => vstd::pervasive::unreached(),
        }
    }

    /// Reads a position from a drawn board as `from_pretty` does, and
    /// refuses a board with a character that is no cell, or with more than
    /// six rows of cells.
    pub fn try_from_pretty(pretty: &str, game_result: Option<GameResult<Team>>) -> (r: Option<Self>)
        ensures
            r is Some <==> (cells_of(pretty@, pretty@.len()) matches Some(cells) && cells.len()
                <= 42),
            r matches Some(state) ==> {
                let cells = cells_of(pretty@, pretty@.len()).unwrap();
                let board = laid(cells, cells.len());
                &&& state.spec_result() == game_result
                &&& state.spec_player() == (if stones(cells, cells.len()) % 2 == 0 {
                    Team::One
                } else {
                    Team::Two
                })
                &&& forall|i: int|
                    0 <= i < 7 ==> {
                        &&& (#[trigger] state.spec_board()[i]).one == board[i].one
                        &&& state.spec_board()[i].two == board[i].two
                        &&& state.spec_board()[i].height == counted(board[i], 6)
                    }
            },
    {
        let mut board = [Column { one: 0, two: 0, height: 0 };7];
        let mut player = Team::One;
        let mut placed: usize = 0;
        let ghost mut cells: Seq<Tile> = Seq::empty();
        let mut chars = pretty.chars();
        let ghost text = pretty@;
        let ghost mut seen: nat = 0;
        proof {
            broadcast use vstd::string::axiom_spec_iter;
            broadcast use vstd::array::group_array_axioms;

            assert(board =~= laid(cells, 0));
        }
        loop
            invariant
                seen <= text.len(),
                text == pretty@,
                vstd::std_specs::iter::IteratorSpec::remaining(&chars) == text.skip(seen as int),
                vstd::std_specs::iter::IteratorSpec::obeys_prophetic_iter_laws(&chars),
                cells_of(text, seen) == Some(cells),
                placed == cells.len(),
                placed <= 42,
                board == laid(cells, cells.len()),
                player == (if stones(cells, cells.len()) % 2 == 0 {
                    Team::One
                } else {
                    Team::Two
                }),
            ensures
                seen == text.len(),
                cells_of(text, seen) == Some(cells),
                placed == cells.len(),
                placed <= 42,
                board == laid(cells, cells.len()),
                player == (if stones(cells, cells.len()) % 2 == 0 {
                    Team::One
                } else {
                    Team::Two
                }),
            decreases text.len() - seen,
        {
            let ghost before = chars;
            let next = chars.next();
            proof {
                broadcast use vstd::string::next_postcondition;

                assert(vstd::string::next_post(&before, &chars, next));
            }
            let c = match next {
                Some(c) => c,
                None => {
                    break ;
                },
            };
            proof {
                assert(text.skip(seen as int)[0] == text[seen as int]);
                assert(text.skip(seen as int).drop_first() =~= text.skip(seen as int + 1));
            }
            if c == ' ' || c == '\n' {
                proof {
                    seen = seen + 1;
                }
            } else {
                let tile = match tile_of(c) {
                    Some(tile) => tile,
                    None => {
                        proof {
                            lemma_cells_fail(text, seen + 1, text.len());
                        }
                        return None;
                    },
                };
                if placed >= 42 {
                    proof {
                        lemma_cells_grow(text, seen + 1, text.len());
                    }
                    return None;
                }
                let col = placed % 7;
                let row = 5 - placed / 7;
                let mut column = board[col];
                let mask: u8 = 1u8 << (row as u8);
                match tile {
                    Tile::Empty => {
                        column.one = column.one & !mask;
                        column.two = column.two & !mask;
                    },
                    Tile::Colour(Team::One) => {
                        column.one = column.one | mask;
                        column.two = column.two & !mask;
                        player = player.opponent();
                    },
                    Tile::Colour(Team::Two) => {
                        column.one = column.one & !mask;
                        column.two = column.two | mask;
                        player = player.opponent();
                    },
                }
                board[col] = column;
                placed = placed + 1;
                proof {
                    broadcast use vstd::array::group_array_axioms;

                    let grown = cells.push(tile);
                    lemma_laid_prefix(cells, grown, cells.len());
                    lemma_stones_prefix(cells, grown, cells.len());
                    assert(board =~= laid(grown, grown.len()));
                    cells = grown;
                    seen = seen + 1;
                }
            }
        }
        let mut i: usize = 0;
        let ghost drawn = board;
        while i < 7
            invariant
                i <= 7,
                forall|j: int|
                    0 <= j < 7 ==> (#[trigger] board[j]).one == drawn[j].one && board[j].two
                        == drawn[j].two,
                forall|j: int| 0 <= j < i ==> (#[trigger] board[j]).height == counted(drawn[j], 6),
                forall|j: int| 0 <= j < i ==> (#[trigger] board[j]).height <= 6,
            decreases 7 - i,
        {
            let mut column = board[i];
            column.height = count_tiles(&column);
            proof {
                lemma_counted_ignores_height(board[i as int], column, 6);
                lemma_counted_ignores_height(board[i as int], drawn[i as int], 6);
            }
            board[i] = column;
            i = i + 1;
        }
        Some(C4State { board, player, game_result })
    }
}

/// The tiles in a column are counted whatever its height says.
pub proof fn lemma_counted_ignores_height(a: Column, b: Column, rows: nat)
    requires
        a.one == b.one,
        a.two == b.two,
    ensures
        counted(a, rows) == counted(b, rows),
    decreases rows,
{
    if rows > 0 {
        lemma_counted_ignores_height(a, b, (rows - 1) as nat);
    }
}

/// Once a character stands for no cell, the text stands for no board.
pub proof fn lemma_cells_fail(text: Seq<char>, seen: nat, count: nat)
    requires
        seen <= count,
        cells_of(text, seen) is None,
    ensures
        cells_of(text, count) is None,
    decreases count,
{
    if seen < count {
        lemma_cells_fail(text, seen, (count - 1) as nat);
    }
}

/// The cells of a text are no fewer than those of its beginning.
pub proof fn lemma_cells_grow(text: Seq<char>, seen: nat, count: nat)
    requires
        seen <= count,
    ensures
        cells_of(text, count) matches Some(all) ==> cells_of(text, seen) matches Some(some)
            && some.len() <= all.len(),
    decreases count,
{
    if seen < count {
        lemma_cells_grow(text, seen, (count - 1) as nat);
    }
}

/// Cells that are added change nothing of the board that the cells before
/// them lay out.
pub proof fn lemma_laid_prefix(cells: Seq<Tile>, more: Seq<Tile>, count: nat)
    requires
        count <= cells.len() <= more.len(),
        forall|i: int| 0 <= i < cells.len() ==> cells[i] == more[i],
    ensures
        laid(more, count) == laid(cells, count),
    decreases count,
{
    if count > 0 {
        lemma_laid_prefix(cells, more, (count - 1) as nat);
    }
}

/// Cells that are added change nothing of the number of tiles before them.
pub proof fn lemma_stones_prefix(cells: Seq<Tile>, more: Seq<Tile>, count: nat)
    requires
        count <= cells.len() <= more.len(),
        forall|i: int| 0 <= i < cells.len() ==> cells[i] == more[i],
    ensures
        stones(more, count) == stones(cells, count),
    decreases count,
{
    if count > 0 {
        lemma_stones_prefix(cells, more, (count - 1) as nat);
    }
}

/// The game begins on an empty board with the first team to move, and is
/// then not over: a tile can be dropped into each of the seven columns.
pub proof fn lemma_initial_state()
    ensures
        forall|i: int|
            0 <= i < 7 ==> (#[trigger] Connect4::spec_initial_state().spec_board()[i]) == (Column {
                one: 0,
                two: 0,
                height: 0,
            }),
        Connect4::spec_initial_state().spec_player() == Team::One,
        Connect4::spec_initial_state().spec_team_to_move() == Team::One,
        Connect4::spec_initial_state().spec_result() is None,
        !Connect4::spec_initial_state().spec_is_terminal(),
        Connect4::spec_initial_state().spec_actions().len() == 7,
        forall|i: int|
            0 <= i < 7 ==> (#[trigger] Connect4::spec_initial_state().spec_actions()[i]) == (C4Action {
                column: i as u8,
            }),
{
    let board = Connect4::spec_initial_state().spec_board();
    assert forall|i: int| 0 <= i < 7 implies (#[trigger] board[i]) == (Column {
        one: 0,
        two: 0,
        height: 0,
    }) by {}
    reveal_with_fuel(drops, 8);
    assert(board[0].height < ROWS && board[1].height < ROWS && board[2].height < ROWS
        && board[3].height < ROWS && board[4].height < ROWS && board[5].height < ROWS
        && board[6].height < ROWS);
}

} // verus!
