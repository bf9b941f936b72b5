//! Tic-tac-toe on three by three cells, with the marks of each team kept as
//! the bits of a word.

use vstd::prelude::*;
use crate::model::error::Error;
use crate::agents::evaluator::Evaluator;
use crate::cache::traits::TranspositionHash;
use crate::model::action::GwAction;
use crate::model::game::Game;
use crate::model::game_result::GameResult;
use crate::model::state::GwState;
use crate::model::team::{GwTeam, Team};
use crate::cache::quadratic_probing::QuadraticProbingTable64;
use crate::perft::counting::{
    faithful, follow, lemma_empty_cache_is_sound, node_count, node_signature, perft, perft_count,
    perft_with_cache, walkable, wrapped,
};

verus! {

/// The nine cells of the board.
pub const BOARD: u16 = 0b111111111;

/// Mixed into the signature of a position, so that the empty board does not
/// take signature 0, which no cache stores.
pub const SALT: u64 = 0x9e37_79b9_7f4a_7c15;

/// Tic-tac-toe on three by three cells.
#[derive(Clone, Copy, Debug)]
pub struct TicTacToe;

/// A mark on one cell: the cell's bit.
#[derive(Clone, Copy, Debug, PartialEq, Eq, Structural)]
pub struct TTTAction {
    pub mask: u16,
}

/// The bit of the cell at `position`.
pub open spec fn cell_bit(position: nat) -> u16 {
    1u16 << (position as u16)
}

/// Whether the marks in `mask` fill one of the three rows, three columns or
/// two diagonals.
pub open spec fn spec_win(mask: u16) -> bool {
    ||| mask & 0b000000111 == 0b000000111
    ||| mask & 0b000111000 == 0b000111000
    ||| mask & 0b111000000 == 0b111000000
    ||| mask & 0b001001001 == 0b001001001
    ||| mask & 0b010010010 == 0b010010010
    ||| mask & 0b100100100 == 0b100100100
    ||| mask & 0b100010001 == 0b100010001
    ||| mask & 0b001010100 == 0b001010100
}

/// Tells whether the marks in `mask` fill a row, a column or a diagonal.
pub fn win_condition(mask: u16) -> (won: bool)
    ensures
        won == spec_win(mask),
{
    mask & 0b000000111 == 0b000000111 || mask & 0b000111000 == 0b000111000 || mask & 0b111000000
        == 0b111000000 || mask & 0b001001001 == 0b001001001 || mask & 0b010010010 == 0b010010010
        || mask & 0b100100100 == 0b100100100 || mask & 0b100010001 == 0b100010001 || mask
        & 0b001010100 == 0b001010100
}

/// Whether the game is over on a board with the given marks: a team has won,
/// or no cell is empty.
pub open spec fn over(crosses: u16, noughts: u16) -> bool {
    spec_win(crosses) || spec_win(noughts) || (crosses | noughts) == BOARD
}

/// The marks that can be made on the empty cells in `free` among the first
/// `count` cells, lowest cell first.
pub open spec fn moves_of(free: u16, count: nat) -> Seq<TTTAction>
    decreases count,
{
    if count == 0 {
        Seq::empty()
    } else if free & cell_bit((count - 1) as nat) != 0 {
        moves_of(free, (count - 1) as nat).push(TTTAction { mask: cell_bit((count - 1) as nat) })
    } else {
        moves_of(free, (count - 1) as nat)
    }
}

/// The number of cells among the first `count` that carry no mark in
/// `marked`.
pub open spec fn vacant(marked: u16, count: nat) -> nat
    decreases count,
{
    if count == 0 {
        0
    } else {
        vacant(marked, (count - 1) as nat) + if marked & cell_bit((count - 1) as nat) == 0 {
            1nat
        } else {
            0nat
        }
    }
}

/// A mark is among the moves exactly if it is the bit of one of the cells
/// looked at, and that cell is free.
pub proof fn lemma_moves_of(free: u16, count: nat, action: TTTAction)
    requires
        count <= 9,
    ensures
        moves_of(free, count).contains(action) <==> exists|i: nat|
            i < count && action.mask == #[trigger] cell_bit(i) && free & cell_bit(i) != 0,
    decreases count,
{
    if count > 0 {
        lemma_moves_of(free, (count - 1) as nat, action);
        let rest = moves_of(free, (count - 1) as nat);
        let last = TTTAction { mask: cell_bit((count - 1) as nat) };
        if free & cell_bit((count - 1) as nat) != 0 {
            if rest.push(last).contains(action) {
                let k = choose|k: int| 0 <= k < rest.len() + 1 && rest.push(last)[k] == action;
                if k < rest.len() {
                    assert(rest[k] == action);
                    assert(rest.contains(action));
                } else {
                    assert(action.mask == cell_bit((count - 1) as nat));
                }
            }
            if rest.contains(action) {
                let k = choose|k: int| 0 <= k < rest.len() && rest[k] == action;
                assert(rest.push(last)[k] == action);
            }
            if action == last {
                assert(rest.push(last)[rest.len() as int] == action);
            }
        }
    }
}

/// A mark on an unmarked cell leaves one cell less vacant among the cells
/// that include it, and as many as before among the others.
pub proof fn lemma_vacant_after(marked: u16, position: nat, count: nat)
    requires
        position < 9,
        count <= 9,
        marked & cell_bit(position) == 0,
    ensures
        vacant(marked | cell_bit(position), count) + (if position < count {
            1nat
        } else {
            0nat
        }) == vacant(marked, count),
    decreases count,
{
    if count > 0 {
        lemma_vacant_after(marked, position, (count - 1) as nat);
        let i = (count - 1) as u16;
        let j = position as u16;
        assert(i != j ==> ((marked | (1u16 << j)) & (1u16 << i) == 0) == (marked & (1u16 << i)
            == 0)) by (bit_vector)
            requires
                i < 9,
                j < 9,
        ;
        assert((marked | (1u16 << j)) & (1u16 << j) != 0) by (bit_vector)
            requires
                j < 9,
        ;
    }
}

/// A position of tic-tac-toe: the marks of each team, the team to move, and
/// whether the game is over.
#[derive(Clone, Copy, Debug)]
pub struct TTTState {
    crosses: u16,
    noughts: u16,
    player: Team,
    is_terminal: bool,
}

impl TTTState {
    /// The marks of the first team.
    pub closed spec fn spec_crosses(&self) -> u16 {
        self.crosses
    }

    /// The marks of the second team.
    pub closed spec fn spec_noughts(&self) -> u16 {
        self.noughts
    }

    /// The team to move.
    pub closed spec fn spec_player(&self) -> Team {
        self.player
    }

    /// A position knows whether the game is over in it.
    #[verifier::type_invariant]
    spec fn consistent(self) -> bool {
        self.is_terminal == over(self.crosses, self.noughts)
    }

    /// The cells that can be marked: the empty ones while the game is not
    /// over, and none when it is.
    pub open spec fn free(&self) -> u16 {
        if over(self.spec_crosses(), self.spec_noughts()) {
            0
        } else {
            !(self.spec_crosses() | self.spec_noughts()) & BOARD
        }
    }

    /// The position after the team to move has made the marks in `mask`.
    pub closed spec fn marked(&self, mask: u16) -> Self {
        match self.player {
            Team::One => TTTState {
                crosses: self.crosses | mask,
                noughts: self.noughts,
                player: Team::Two,
                is_terminal: over(self.crosses | mask, self.noughts),
            },
            Team::Two => TTTState {
                crosses: self.crosses,
                noughts: self.noughts | mask,
                player: Team::One,
                is_terminal: over(self.crosses, self.noughts | mask),
            },
        }
    }

    /// What a mark changes: the marks of the team to move, and the team to
    /// move.
    pub proof fn lemma_marked(&self, mask: u16)
        ensures
            self.marked(mask).spec_player() == self.spec_player().spec_opponent(),
            self.marked(mask).spec_crosses() == (if self.spec_player() == Team::One {
                self.spec_crosses() | mask
            } else {
                self.spec_crosses()
            }),
            self.marked(mask).spec_noughts() == (if self.spec_player() == Team::Two {
                self.spec_noughts() | mask
            } else {
                self.spec_noughts()
            }),
    {
    }

    /// Returns the marks of the first team.
    pub fn crosses(&self) -> (marks: u16)
        ensures
            marks == self.spec_crosses(),
    {
        self.crosses
    }

    /// Returns the marks of the second team.
    pub fn noughts(&self) -> (marks: u16)
        ensures
            marks == self.spec_noughts(),
    {
        self.noughts
    }
}

impl GwAction<TicTacToe> for TTTAction {
}

impl Game for TicTacToe {
    type State = TTTState;

    type Action = TTTAction;

    type Team = Team;

    type GameResult = GameResult<Team>;

    closed spec fn spec_initial_state() -> TTTState {
        TTTState { crosses: 0, noughts: 0, player: Team::One, is_terminal: false }
    }

    open spec fn spec_starting_team() -> Team {
        Team::One
    }

    fn initial_state() -> (s: TTTState) {
        assert(!over(0, 0)) by (bit_vector);
        TTTState { crosses: 0, noughts: 0, player: Team::One, is_terminal: false }
    }

    fn starting_team() -> (t: Team) {
        Team::One
    }
}

impl GwState<TicTacToe> for TTTState {
    open spec fn spec_actions(&self) -> Seq<TTTAction> {
        moves_of(self.free(), 9)
    }

    open spec fn spec_apply(&self, action: TTTAction) -> Self {
        self.marked(action.mask)
    }

    open spec fn spec_team_to_move(&self) -> Team {
        self.spec_player()
    }

    open spec fn spec_is_terminal(&self) -> bool {
        over(self.spec_crosses(), self.spec_noughts())
    }

    open spec fn spec_game_result(&self) -> Option<GameResult<Team>> {
        if spec_win(self.spec_crosses()) {
            Some(GameResult::Win(Team::One))
        } else if spec_win(self.spec_noughts()) {
            Some(GameResult::Win(Team::Two))
        } else if self.spec_crosses() | self.spec_noughts() == BOARD {
            Some(GameResult::Draw)
        } else {
            None
        }
    }

    open spec fn spec_rank(&self) -> nat {
        vacant(self.spec_crosses() | self.spec_noughts(), 9)
    }

    fn actions(&self) -> (r: Vec<TTTAction>) {
        proof {
            use_type_invariant(self);
        }
        let mut actions: Vec<TTTAction> = Vec::new();
        if self.is_terminal {
            proof {
                lemma_no_moves(9);
            }
            return actions;
        }
        let free: u16 = !(self.crosses | self.noughts) & BOARD;
        let mut i: u16 = 0;
        while i < 9
            invariant
                i <= 9,
                actions@ == moves_of(free, i as nat),
            decreases 9 - i,
        {
            let bit: u16 = 1u16 << i;
            if free & bit != 0 {
                actions.push(TTTAction { mask: bit });
            }
            i = i + 1;
        }
        actions
    }

    fn count_actions(&self) -> (r: usize) {
        self.actions().len()
    }

    fn is_legal(&self, action: &TTTAction) -> (r: bool) {
        proof {
            use_type_invariant(self);
            let marked = self.crosses | self.noughts;
            assert((!marked & 0b111111111u16) & !0b111111111u16 == 0) by (bit_vector);
            assert(0u16 & !0b111111111u16 == 0) by (bit_vector);
            lemma_moves_of(self.free(), 9, *action);
            lemma_single_bit(action.mask, self.free());
            lemma_no_moves(9);
        }
        if self.is_terminal {
            return false;
        }
        let free: u16 = !(self.crosses | self.noughts) & BOARD;
        let mask = action.mask;
        mask != 0 && mask & (mask - 1) == 0 && mask & free == mask
    }

    fn team_to_move(&self) -> (r: Team) {
        self.player
    }

    fn apply_action(&self, action: &TTTAction) -> (r: Self) {
        proof {
            use_type_invariant(self);
            lemma_no_moves(9);
        }
        match self.player {
            Team::One => {
                let crosses = self.crosses | action.mask;
                let ended = (crosses | self.noughts) == BOARD;
                TTTState {
                    crosses,
                    noughts: self.noughts,
                    player: Team::Two,
                    is_terminal: win_condition(crosses) || ended,
                }
            },
            Team::Two => {
                let noughts = self.noughts | action.mask;
                let ended = (self.crosses | noughts) == BOARD;
                TTTState {
                    crosses: self.crosses,
                    noughts,
                    player: Team::One,
                    is_terminal: win_condition(noughts) || ended,
                }
            },
        }
    }

    fn is_terminal(&self) -> (r: bool) {
        proof {
            use_type_invariant(self);
        }
        self.is_terminal
    }

    fn game_result(&self) -> (r: Option<GameResult<Team>>) {
        if win_condition(self.crosses) {
            Some(GameResult::Win(Team::One))
        } else if win_condition(self.noughts) {
            Some(GameResult::Win(Team::Two))
        } else if self.crosses | self.noughts == BOARD {
            Some(GameResult::Draw)
        } else {
            None
        }
    }

    proof fn lemma_over_has_result(&self) {
    }

    proof fn lemma_clone_exact(a: Self, b: Self) {
    }

    proof fn lemma_teams_alternate(&self, action: TTTAction) {
        self.lemma_marked(action.mask);
    }

    proof fn lemma_rank_decreases(&self, action: TTTAction) {
        lemma_moves_of(self.free(), 9, action);
        let i = choose|i: nat|
            i < 9 && action.mask == #[trigger] cell_bit(i) && self.free() & cell_bit(i) != 0;
        let marked = self.spec_crosses() | self.spec_noughts();
        let bit = cell_bit(i);
        let at = i as u16;
        assert(marked & bit == 0) by (bit_vector)
            requires
                at < 9,
                bit == 1u16 << at,
                (!marked & 0b111111111u16) & bit != 0,
        ;
        lemma_vacant_after(marked, i, 9);
        self.lemma_marked(action.mask);
        let c = self.spec_crosses();
        let n = self.spec_noughts();
        assert((c | bit) | n == (c | n) | bit && c | (n | bit) == (c | n) | bit) by (bit_vector);
    }
}

/// No cell is free: no move can be made.
pub proof fn lemma_no_moves(count: nat)
    ensures
        moves_of(0, count) == Seq::<TTTAction>::empty(),
    decreases count,
{
    if count > 0 {
        lemma_no_moves((count - 1) as nat);
        let i = (count - 1) as u16;
        assert(0u16 & (1u16 << i) == 0) by (bit_vector);
    }
}

/// A word of one bit that lies within nine free cells is the bit of one of
/// them, and the other way round.
pub proof fn lemma_single_bit(mask: u16, free: u16)
    requires
        free & !BOARD == 0,
    ensures
        (mask != 0 && mask & sub1(mask) == 0 && mask & free == mask) <==> exists|i: nat|
            i < 9 && mask == #[trigger] cell_bit(i) && free & cell_bit(i) != 0,
{
    assert((mask != 0 && mask & sub1(mask) == 0 && mask & free == mask) <==> ((mask == 1 && free
        & 1 != 0) || (mask == 2 && free & 2 != 0) || (mask == 4 && free & 4 != 0) || (mask == 8
        && free & 8 != 0) || (mask == 16 && free & 16 != 0) || (mask == 32 && free & 32 != 0) || (
    mask == 64 && free & 64 != 0) || (mask == 128 && free & 128 != 0) || (mask == 256 && free
        & 256 != 0))) by (bit_vector)
        requires
            free & !0b111111111u16 == 0,
            sub1(mask) == if mask == 0 {
                0xffffu16
            } else {
                (mask - 1) as u16
            },
    ;
    assert(cell_bit(0) == 1 && cell_bit(1) == 2 && cell_bit(2) == 4 && cell_bit(3) == 8
        && cell_bit(4) == 16 && cell_bit(5) == 32 && cell_bit(6) == 64 && cell_bit(7) == 128
        && cell_bit(8) == 256) by (bit_vector);
    if mask != 0 && mask & sub1(mask) == 0 && mask & free == mask {
        let i: nat = if mask == 1 {
            0
        } else if mask == 2 {
            1
        } else if mask == 4 {
            2
        } else if mask == 8 {
            3
        } else if mask == 16 {
            4
        } else if mask == 32 {
            5
        } else if mask == 64 {
            6
        } else if mask == 128 {
            7
        } else {
            8
        };
        assert(i < 9 && mask == cell_bit(i) && free & cell_bit(i) != 0);
    }
}

/// The word before `mask`, and the last word before the first.
pub open spec fn sub1(mask: u16) -> u16 {
    if mask == 0 {
        0xffffu16
    } else {
        (mask - 1) as u16
    }
}

/// The lowest bit that is set in `fields`, and 0 where none is.
pub open spec fn lowest_bit(fields: u16) -> u16 {
    fields & !sub1(fields)
}

/// Walks the actions of a position, lowest cell first.
pub struct TTTActionIter {
    fields: u16,
}

impl TTTActionIter {
    /// The cells whose marks are still to come.
    pub closed spec fn pending(&self) -> u16 {
        self.fields
    }

    /// Starts a walk over the actions of `state`.
    pub fn new(state: TTTState) -> (it: Self)
        ensures
            it.pending() == state.free(),
    {
        proof {
            use_type_invariant(&state);
        }
        if state.is_terminal {
            TTTActionIter { fields: 0 }
        } else {
            TTTActionIter { fields: !(state.crosses | state.noughts) & BOARD }
        }
    }

    /// Hands out the mark on the lowest pending cell, or nothing when no
    /// cell is pending.
    pub fn next(&mut self) -> (r: Option<TTTAction>)
        ensures
            old(self).pending() == 0 ==> r is None && final(self).pending() == 0,
            old(self).pending() != 0 ==> {
                &&& r == Some(TTTAction { mask: lowest_bit(old(self).pending()) })
                &&& final(self).pending() == old(self).pending() ^ lowest_bit(old(self).pending())
            },
    {
        if self.fields == 0 {
            None
        } else {
            let mask = self.fields & !(self.fields - 1);
            self.fields = self.fields ^ mask;
            Some(TTTAction { mask })
        }
    }
}

impl TranspositionHash for TTTState {
    /// The marks of both teams side by side, mixed with `SALT`.
    open spec fn spec_hash(&self) -> u64 {
        (((self.spec_noughts() as u64) << 16) | (self.spec_crosses() as u64)) ^ SALT
    }

    fn hash(&self) -> (h: u64) {
        (((self.noughts as u64) << 16) | (self.crosses as u64)) ^ SALT
    }
}

/// What a position is worth to a team: 100 where the team has won, -100
/// where it has lost, 1 for a draw, and 0 where the game is not over.
pub open spec fn ttt_score(state: TTTState, team: Team) -> i32 {
    match state.spec_game_result() {
        Some(GameResult::Win(winner)) => if winner == team {
            100i32
        } else {
            (-100) as i32
        },
        Some(GameResult::Draw) => 1i32,
        None => 0i32,
    }
}

/// Scores a position by how the game ended. A draw is worth 1 to either
/// team, so the scoring is not symmetric.
pub struct TTTHeuristic;

impl Evaluator<TicTacToe> for TTTHeuristic {
    open spec fn scoring(&self) -> spec_fn(TTTState, Team) -> i32 {
        |state: TTTState, team: Team| ttt_score(state, team)
    }

    /// The evaluator never fails.
    open spec fn failures(&self) -> Set<Error> {
        Set::empty()
    }

    fn evaluate_for(&mut self, state: &TTTState, team: &Team) -> (r: Result<i32, Error>) {
        let score: i32 = {
            match state.game_result() {
                Some(GameResult::Win(winner)) => {
                    if winner == *team {
                        100
                    } else {
                        -100
                    }
                },
                Some(GameResult::Draw) => 1,
                None => 0,
            }
        };
        Ok(score)
    }
}

/// Two positions of one signature have the same marks.
pub proof fn lemma_signature_tells_the_marks(a: TTTState, b: TTTState)
    requires
        a.spec_hash() == b.spec_hash(),
    ensures
        a.spec_crosses() == b.spec_crosses(),
        a.spec_noughts() == b.spec_noughts(),
{
    let (c1, n1, c2, n2) = (a.crosses, a.noughts, b.crosses, b.noughts);
    assert(c1 == c2 && n1 == n2) by (bit_vector)
        requires
            (((n1 as u64) << 16) | (c1 as u64)) ^ 0x9e37_79b9_7f4a_7c15u64 == (((n2 as u64) << 16) | (
            c2 as u64)) ^ 0x9e37_79b9_7f4a_7c15u64,
    ;
}

/// What holds of every position that play reaches from the empty board: the
/// teams have taken turns, every turn has left a mark, and the position
/// knows whether the game is over in it.
proof fn lemma_reached(path: Seq<int>)
    requires
        walkable::<TicTacToe>(TicTacToe::spec_initial_state(), path),
    ensures
        ({
            let state = follow::<TicTacToe>(TicTacToe::spec_initial_state(), path);
            &&& state.player == (if path.len() % 2 == 0 {
                Team::One
            } else {
                Team::Two
            })
            &&& vacant(state.crosses | state.noughts, 9) + path.len() == 9
            &&& state.is_terminal == over(state.crosses, state.noughts)
        }),
    decreases path.len(),
{
    let start = TicTacToe::spec_initial_state();
    if path.len() == 0 {
        assert(!over(0, 0)) by (bit_vector);
        assert(0u16 | 0u16 == 0u16) by (bit_vector);
        lemma_all_vacant(9);
    } else {
        lemma_reached(path.drop_last());
        let before = follow::<TicTacToe>(start, path.drop_last());
        let action = before.spec_actions()[path.last()];
        assert(before.spec_actions().contains(action));
        lemma_moves_of(before.free(), 9, action);
        let i = choose|i: nat|
            i < 9 && action.mask == #[trigger] cell_bit(i) && before.free() & cell_bit(i) != 0;
        let marked = before.crosses | before.noughts;
        let bit = cell_bit(i);
        let at = i as u16;
        assert(marked & bit == 0) by (bit_vector)
            requires
                at < 9,
                bit == 1u16 << at,
                (!marked & 0b111111111u16) & bit != 0,
        ;
        lemma_vacant_after(marked, i, 9);
        let c = before.crosses;
        let n = before.noughts;
        assert((c | bit) | n == (c | n) | bit && c | (n | bit) == (c | n) | bit) by (bit_vector);
    }
}

/// On the empty board all cells are vacant.
pub proof fn lemma_all_vacant(count: nat)
    requires
        count <= 9,
    ensures
        vacant(0, count) == count,
    decreases count,
{
    if count > 0 {
        lemma_all_vacant((count - 1) as nat);
        let i = (count - 1) as u16;
        assert(0u16 & (1u16 << i) == 0) by (bit_vector);
    }
}

/// From the empty board, signatures are faithful to every depth: two
/// positions that play reaches under one signature are the same position,
/// reached after the same number of turns.
pub proof fn lemma_signatures_are_faithful(depth: nat)
    ensures
        faithful::<TicTacToe>(TicTacToe::spec_initial_state(), depth),
{
    let start = TicTacToe::spec_initial_state();
    assert forall|p: Seq<int>, q: Seq<int>|
        #![trigger node_count::<TicTacToe>(start, depth, p), node_count::<TicTacToe>(start, depth, q)]
        walkable::<TicTacToe>(start, p) && walkable::<TicTacToe>(start, q) && p.len() <= depth
            && q.len() <= depth && node_signature::<TicTacToe>(start, p) == node_signature::<
            TicTacToe,
        >(start, q) implies node_count::<TicTacToe>(start, depth, p) == node_count::<TicTacToe>(
        start,
        depth,
        q,
    ) by {
        let a = follow::<TicTacToe>(start, p);
        let b = follow::<TicTacToe>(start, q);
        lemma_reached(p);
        lemma_reached(q);
        lemma_signature_tells_the_marks(a, b);
        assert(p.len() == q.len());
        assert(a == b);
    }
}

/// Counts the nodes of the empty board at `depth` with a fresh cache of
/// `slots` slots, used to the depth `table_depth`; without a cache where
/// `slots` is no power of two. Whatever the cache and the depth to which it
/// is used, the count is that of `perft`.
pub fn perft_from_start(depth: u32, table_depth: u32, slots: usize) -> (nodes: u64)
    ensures
        nodes == wrapped(perft_count::<TicTacToe>(TicTacToe::spec_initial_state(), depth as nat)),
{
    let start = TicTacToe::initial_state();
    match QuadraticProbingTable64::<TTTState, u64>::try_new(slots) {
        Some(table) => {
            let mut table = table;
            proof {
                lemma_signatures_are_faithful(depth as nat);
                lemma_empty_cache_is_sound::<TicTacToe>(start, depth as nat);
            }
            perft_with_cache::<TicTacToe, QuadraticProbingTable64<TTTState, u64>>(
                &start,
                depth,
                &mut table,
                table_depth,
            )
        },
        None => perft::<TicTacToe>(&start, depth),
    }
}

/// The game begins on a board without marks with the first team to move,
/// and is then not over: every cell can be marked.
pub proof fn lemma_initial_state()
    ensures
        TicTacToe::spec_initial_state().spec_crosses() == 0,
        TicTacToe::spec_initial_state().spec_noughts() == 0,
        TicTacToe::spec_initial_state().spec_player() == Team::One,
        TicTacToe::spec_initial_state().spec_team_to_move() == Team::One,
        !TicTacToe::spec_initial_state().spec_is_terminal(),
        TicTacToe::spec_initial_state().spec_game_result() is None,
        TicTacToe::spec_initial_state().free() == BOARD,
{
    assert(!over(0, 0)) by (bit_vector);
    assert(!spec_win(0)) by (bit_vector);
    assert(!(0u16 | 0u16) & 0b111111111u16 == 0b111111111u16) by (bit_vector);
    TicTacToe::spec_initial_state().lemma_over_has_result();
}

} // verus!
