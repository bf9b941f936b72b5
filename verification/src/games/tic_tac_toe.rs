//! Tic-tac-toe on a board of N by N cells: the first team to fill a row, a
//! column or a diagonal wins.

use vstd::prelude::*;
use crate::model::error::Error;
use crate::agents::evaluator::{symmetric, Evaluator};
use crate::agents::laws::law_negamax_agrees_with_minimax;
use crate::agents::minimax::minimax_value;
use crate::agents::negamax::{negamax_value, playable, replies_playable};
use crate::cache::traits::TranspositionHash;
use crate::model::action::GwAction;
use crate::model::game::Game;
use crate::model::game_result::TwoPlayerGameResult;
use crate::model::state::GwState;
use crate::model::team::{GwTeam, TwoPlayerTeam};

verus! {

/// Tic-tac-toe on a board of N by N cells.
#[derive(Copy, Clone, Debug, PartialEq, Eq)]
pub struct TicTacToe<const N: usize>;

/// A mark on the cell at a column and a row of the board.
#[derive(Copy, Clone, Debug, PartialEq, Eq)]
pub struct TicTacToeAction {
    pub col: usize,
    pub row: usize,
}

impl TicTacToeAction {
    /// The mark on the cell at `col` and `row`.
    pub fn new(col: usize, row: usize) -> (action: Self)
        ensures
            action.col == col,
            action.row == row,
    {
        TicTacToeAction { col, row }
    }
}

/// A position of tic-tac-toe: the marks on the board, and the number of
/// turns taken.
#[derive(Copy, Clone, PartialEq, Eq, Debug)]
pub struct TicTacToeState<const N: usize> {
    board: [[Option<TwoPlayerTeam>; N]; N],
    turn: usize,
}

/// The four kinds of line on which a team can win.
#[derive(Copy, Clone, PartialEq, Eq, Debug, Structural)]
pub enum Line {
    /// The cells of one first index, along the second.
    Row,
    /// The cells of one second index, along the first.
    Column,
    /// The cells of equal indices.
    Diagonal,
    /// The cells whose indices add up to N - 1.
    AntiDiagonal,
}

/// The `k`-th cell of the line of the given kind and number, on a board of
/// `n` by `n` cells.
pub open spec fn line_cell(kind: Line, line: int, k: int, n: int) -> (int, int) {
    match kind {
        Line::Row => (line, k),
        Line::Column => (k, line),
        Line::Diagonal => (k, k),
        Line::AntiDiagonal => (k, n - 1 - k),
    }
}

impl<const N: usize> TicTacToeState<N> {
    /// The mark on the cell at the given indices, if there is one.
    pub closed spec fn cell(&self, x: int, y: int) -> Option<TwoPlayerTeam> {
        self.board[x][y]
    }

    /// The number of turns taken.
    pub closed spec fn spec_turn(&self) -> usize {
        self.turn
    }

    /// The team that holds every cell of a line, if one does.
    pub open spec fn line_owner(&self, kind: Line, line: int) -> Option<TwoPlayerTeam> {
        let first = line_cell(kind, line, 0, N as int);
        if N > 0 && self.cell(first.0, first.1) is Some && forall|k: int|
            0 <= k < N ==> self.cell(
                #[trigger] line_cell(kind, line, k, N as int).0,
                line_cell(kind, line, k, N as int).1,
            ) == self.cell(first.0, first.1) {
            self.cell(first.0, first.1)
        } else {
            None
        }
    }

    /// The owner of the first owned line among the first `lines` lines of a
    /// kind.
    pub open spec fn first_owner(&self, kind: Line, lines: nat) -> Option<TwoPlayerTeam>
        decreases lines,
    {
        if lines == 0 {
            None
        } else {
            match self.first_owner(kind, (lines - 1) as nat) {
                Some(team) => Some(team),
                None => self.line_owner(kind, lines - 1),
            }
        }
    }

    /// The team that wins: the owner of the first owned row, else of the
    /// first owned column, else of the diagonal, else of the anti-diagonal.
    pub open spec fn winner(&self) -> Option<TwoPlayerTeam> {
        match self.first_owner(Line::Row, N as nat) {
            Some(team) => Some(team),
            None => match self.first_owner(Line::Column, N as nat) {
                Some(team) => Some(team),
                None => match self.line_owner(Line::Diagonal, 0) {
                    Some(team) => Some(team),
                    None => self.line_owner(Line::AntiDiagonal, 0),
                },
            },
        }
    }

    /// The empty cells among the first `rows` cells of column `x`, as marks
    /// that can be made.
    pub open spec fn free_in(&self, x: int, rows: nat) -> Seq<TicTacToeAction>
        decreases rows,
    {
        if rows == 0 {
            Seq::empty()
        } else if self.cell(x, rows - 1) is None {
            self.free_in(x, (rows - 1) as nat).push(
                TicTacToeAction { col: x as usize, row: (rows - 1) as usize },
            )
        } else {
            self.free_in(x, (rows - 1) as nat)
        }
    }

    /// The empty cells of the first `cols` columns, column by column.
    pub open spec fn free_cells(&self, cols: nat) -> Seq<TicTacToeAction>
        decreases cols,
    {
        if cols == 0 {
            Seq::empty()
        } else {
            self.free_cells((cols - 1) as nat) + self.free_in(cols - 1, N as nat)
        }
    }

    /// Whether no cell is empty.
    pub open spec fn full(&self) -> bool {
        forall|x: int, y: int| 0 <= x < N && 0 <= y < N ==> (#[trigger] self.cell(x, y)) is Some
    }

    /// The position with the given marks after the given number of turns.
    pub fn from_board(board: [[Option<TwoPlayerTeam>; N]; N], turn: usize) -> (state: Self)
        ensures
            state.spec_turn() == turn,
            forall|x: int, y: int|
                0 <= x < N && 0 <= y < N ==> #[trigger] state.cell(x, y) == board[x][y],
    {
        TicTacToeState { board, turn }
    }

    /// Returns the number of turns taken.
    pub fn turn(&self) -> (turn: usize)
        ensures
            turn == self.spec_turn(),
    {
        self.turn
    }

    /// Returns the mark on the cell at the given indices, if there is one.
    pub fn tile(&self, x: usize, y: usize) -> (mark: Option<TwoPlayerTeam>)
        requires
            x < N,
            y < N,
        ensures
            mark == self.cell(x as int, y as int),
    {
        self.board[x][y]
    }

    /// Returns the team that holds every cell of the given line, if one
    /// does.
    pub fn owner_of(&self, kind: Line, line: usize) -> (owner: Option<TwoPlayerTeam>)
        requires
            line < N,
        ensures
            owner == self.line_owner(kind, line as int),
    {
        let first = match kind {
            Line::Row => self.board[line][0],
            Line::Column => self.board[0][line],
            Line::Diagonal => self.board[0][0],
            Line::AntiDiagonal => self.board[0][N - 1],
        };
        let first_tile = match first {
            Some(team) => team,
            None => {
                return None;
            },
        };
        let mut k: usize = 0;
        while k < N
            invariant
                k <= N,
                line < N,
                first == self.cell(
                    line_cell(kind, line as int, 0, N as int).0,
                    line_cell(kind, line as int, 0, N as int).1,
                ),
                first == Some(first_tile),
                forall|j: int|
                    0 <= j < k ==> self.cell(
                        #[trigger] line_cell(kind, line as int, j, N as int).0,
                        line_cell(kind, line as int, j, N as int).1,
                    ) == first,
            decreases N - k,
        {
            let tile = match kind {
                Line::Row => self.board[line][k],
                Line::Column => self.board[k][line],
                Line::Diagonal => self.board[k][k],
                Line::AntiDiagonal => self.board[k][N - 1 - k],
            };
            let same = match tile {
                Some(team) => team == first_tile,
                None => false,
            };
            if !same {
                proof {
                    assert(self.cell(
                        line_cell(kind, line as int, k as int, N as int).0,
                        line_cell(kind, line as int, k as int, N as int).1,
                    ) != first);
                }
                return None;
            }
            k = k + 1;
        }
        first
    }

    /// Returns the owner of the first owned line of the given kind.
    pub fn first_owned(&self, kind: Line) -> (owner: Option<TwoPlayerTeam>)
        ensures
            owner == self.first_owner(kind, N as nat),
    {
        let mut line: usize = 0;
        while line < N
            invariant
                line <= N,
                self.first_owner(kind, line as nat) is None,
            decreases N - line,
        {
            let owner = self.owner_of(kind, line);
            if owner.is_some() {
                proof {
                    self.lemma_first_owner_stays(kind, (line + 1) as nat, N as nat);
                }
                return owner;
            }
            line = line + 1;
        }
        None
    }

    /// Once a line is owned, the first owner stays the same however many
    /// more lines are looked at.
    pub proof fn lemma_first_owner_stays(&self, kind: Line, seen: nat, lines: nat)
        requires
            seen <= lines,
            self.first_owner(kind, seen) is Some,
        ensures
            self.first_owner(kind, lines) == self.first_owner(kind, seen),
        decreases lines,
    {
        if seen < lines {
            self.lemma_first_owner_stays(kind, seen, (lines - 1) as nat);
        }
    }

    /// Returns `true` if no cell is empty.
    pub fn is_full(&self) -> (full: bool)
        ensures
            full == self.full(),
    {
        let mut x: usize = 0;
        while x < N
            invariant
                x <= N,
                forall|i: int, j: int| 0 <= i < x && 0 <= j < N ==> (#[trigger] self.cell(i, j)) is Some,
            decreases N - x,
        {
            let mut y: usize = 0;
            while y < N
                invariant
                    x < N,
                    y <= N,
                    forall|i: int, j: int|
                        0 <= i < x && 0 <= j < N ==> (#[trigger] self.cell(i, j)) is Some,
                    forall|j: int| 0 <= j < y ==> (#[trigger] self.cell(x as int, j)) is Some,
                decreases N - y,
            {
                if self.board[x][y].is_none() {
                    proof {
                        assert(self.cell(x as int, y as int) is None);
                    }
                    return false;
                }
                y = y + 1;
            }
            x = x + 1;
        }
        true
    }
}

impl<const N: usize> TicTacToeState<N> {
    /// The position after `team` has marked the cell at `col` and `row`.
    pub closed spec fn placed(&self, col: int, row: int, team: TwoPlayerTeam) -> Self {
        TicTacToeState {
            board: vstd::array::spec_array_update(
                self.board,
                col,
                vstd::array::spec_array_update(self.board[col], row, Some(team)),
            ),
            turn: if self.turn == usize::MAX {
                0
            } else {
                (self.turn + 1) as usize
            },
        }
    }

    /// A mark changes the cell that it is made on, and no other; it adds a
    /// turn.
    pub proof fn lemma_placed(&self, col: int, row: int, team: TwoPlayerTeam)
        requires
            0 <= col < N,
            0 <= row < N,
        ensures
            forall|x: int, y: int|
                0 <= x < N && 0 <= y < N ==> #[trigger] self.placed(col, row, team).cell(x, y)
                    == if x == col && y == row {
                    Some(team)
                } else {
                    self.cell(x, y)
                },
            self.placed(col, row, team).spec_turn() % 2 != self.spec_turn() % 2,
    {
        broadcast use vstd::array::group_array_axioms;

        assert(usize::MAX % 2 == 1) by {
            assert(usize::MAX == 0xffff_ffff || usize::MAX == 0xffff_ffff_ffff_ffff);
        }
    }

    /// A cell is among the free cells of its column exactly if it is empty.
    pub proof fn lemma_free_in(&self, x: int, rows: nat, action: TicTacToeAction)
        requires
            0 <= x <= usize::MAX,
            rows <= usize::MAX,
        ensures
            self.free_in(x, rows).contains(action) <==> (action.col == x && action.row < rows
                && self.cell(x, action.row as int) is None),
        decreases rows,
    {
        if rows > 0 {
            self.lemma_free_in(x, (rows - 1) as nat, action);
            let rest = self.free_in(x, (rows - 1) as nat);
            if self.cell(x, rows - 1) is None {
                let last = TicTacToeAction { col: x as usize, row: (rows - 1) as usize };
                assert(rest.push(last).last() == last);
                if rest.push(last).contains(action) {
                    let i = choose|i: int| 0 <= i < rest.len() + 1 && rest.push(last)[i] == action;
                    if i < rest.len() {
                        assert(rest[i] == action);
                    }
                }
                if rest.contains(action) {
                    let i = choose|i: int| 0 <= i < rest.len() && rest[i] == action;
                    assert(rest.push(last)[i] == action);
                }
                if action == last {
                    assert(rest.push(last)[rest.len() as int] == action);
                }
            }
        }
    }

    /// A cell is among the free cells of the board exactly if it is empty.
    pub proof fn lemma_free_cells(&self, cols: nat, action: TicTacToeAction)
        requires
            cols <= N,
        ensures
            self.free_cells(cols).contains(action) <==> (action.col < cols && action.row < N
                && self.cell(action.col as int, action.row as int) is None),
        decreases cols,
    {
        if cols > 0 {
            self.lemma_free_cells((cols - 1) as nat, action);
            self.lemma_free_in(cols - 1, N as nat, action);
            let left = self.free_cells((cols - 1) as nat);
            let right = self.free_in(cols - 1, N as nat);
            if (left + right).contains(action) {
                let i = choose|i: int| 0 <= i < (left + right).len() && (left + right)[i] == action;
                if i < left.len() {
                    assert(left[i] == action);
                } else {
                    assert(right[i - left.len()] == action);
                }
            }
            if left.contains(action) {
                let i = choose|i: int| 0 <= i < left.len() && left[i] == action;
                assert((left + right)[i] == action);
            }
            if right.contains(action) {
                let i = choose|i: int| 0 <= i < right.len() && right[i] == action;
                assert((left + right)[left.len() + i] == action);
            }
        }
    }

    /// A mark on an empty cell leaves one free cell less in its column, and
    /// as many as before in every other.
    pub proof fn lemma_free_in_after(&self, col: int, row: int, team: TwoPlayerTeam, x: int, rows: nat)
        requires
            0 <= col < N,
            0 <= row < N,
            0 <= x < N,
            rows <= N,
            self.cell(col, row) is None,
        ensures
            self.placed(col, row, team).free_in(x, rows).len() + (if x == col && row < rows {
                1nat
            } else {
                0nat
            }) == self.free_in(x, rows).len(),
        decreases rows,
    {
        if rows > 0 {
            self.lemma_placed(col, row, team);
            self.lemma_free_in_after(col, row, team, x, (rows - 1) as nat);
            assert(self.placed(col, row, team).cell(x, rows - 1) == if x == col && rows - 1 == row {
                Some(team)
            } else {
                self.cell(x, rows - 1)
            });
        }
    }

    /// A mark on an empty cell leaves one free cell less on the board.
    pub proof fn lemma_free_cells_after(&self, col: int, row: int, team: TwoPlayerTeam, cols: nat)
        requires
            0 <= col < N,
            0 <= row < N,
            cols <= N,
            self.cell(col, row) is None,
        ensures
            self.placed(col, row, team).free_cells(cols).len() + (if col < cols {
                1nat
            } else {
                0nat
            }) == self.free_cells(cols).len(),
        decreases cols,
    {
        if cols > 0 {
            self.lemma_free_cells_after(col, row, team, (cols - 1) as nat);
            self.lemma_free_in_after(col, row, team, cols - 1, N as nat);
        }
    }
}

impl<const N: usize> GwAction<TicTacToe<N>> for TicTacToeAction {
}

impl<const N: usize> Game for TicTacToe<N> {
    type State = TicTacToeState<N>;

    type Action = TicTacToeAction;

    type Team = TwoPlayerTeam;

    type GameResult = TwoPlayerGameResult<TwoPlayerTeam>;

    closed spec fn spec_initial_state() -> TicTacToeState<N> {
        TicTacToeState {
            board: vstd::array::spec_array_fill_for_copy_type(
                vstd::array::spec_array_fill_for_copy_type(None),
            ),
            turn: 0,
        }
    }

    open spec fn spec_starting_team() -> TwoPlayerTeam {
        TwoPlayerTeam::One
    }

    fn initial_state() -> (s: TicTacToeState<N>) {
        TicTacToeState { board: [[None; N]; N], turn: 0 }
    }

    fn starting_team() -> (t: TwoPlayerTeam) {
        TwoPlayerTeam::One
    }
}

impl<const N: usize> GwState<TicTacToe<N>> for TicTacToeState<N> {
    open spec fn spec_actions(&self) -> Seq<TicTacToeAction> {
        self.free_cells(N as nat)
    }

    open spec fn spec_apply(&self, action: TicTacToeAction) -> Self {
        self.placed(action.col as int, action.row as int, self.spec_team_to_move())
    }

    open spec fn spec_team_to_move(&self) -> TwoPlayerTeam {
        if self.spec_turn() % 2 == 0 {
            TwoPlayerTeam::One
        } else {
            TwoPlayerTeam::Two
        }
    }

    open spec fn spec_is_terminal(&self) -> bool {
        self.spec_game_result() is Some
    }

    open spec fn spec_game_result(&self) -> Option<TwoPlayerGameResult<TwoPlayerTeam>> {
        match self.winner() {
            Some(team) => Some(TwoPlayerGameResult::Winner(team)),
            None => if self.full() {
                Some(TwoPlayerGameResult::Draw)
            } else {
                None
            },
        }
    }

    open spec fn spec_rank(&self) -> nat {
        self.free_cells(N as nat).len()
    }

    fn actions(&self) -> (r: Vec<TicTacToeAction>) {
        let mut actions: Vec<TicTacToeAction> = Vec::new();
        let mut x: usize = 0;
        while x < N
            invariant
                x <= N,
                actions@ == self.free_cells(x as nat),
            decreases N - x,
        {
            let ghost before = actions@;
            let mut y: usize = 0;
            while y < N
                invariant
                    x < N,
                    y <= N,
                    before == self.free_cells(x as nat),
                    actions@ == before + self.free_in(x as int, y as nat),
                decreases N - y,
            {
                if self.board[x][y].is_none() {
                    actions.push(TicTacToeAction::new(x, y));
                    proof {
                        assert(actions@ =~= before + self.free_in(x as int, (y + 1) as nat));
                    }
                }
                y = y + 1;
            }
            x = x + 1;
        }
        actions
    }

    fn is_legal(&self, action: &TicTacToeAction) -> (r: bool) {
        proof {
            self.lemma_free_cells(N as nat, *action);
        }
        action.col < N && action.row < N && self.board[action.col][action.row].is_none()
    }

    fn team_to_move(&self) -> (r: TwoPlayerTeam) {
        TwoPlayerTeam::One.nth(self.turn)
    }

    fn apply_action(&self, action: &TicTacToeAction) -> (r: Self) {
        proof {
            self.lemma_free_cells(N as nat, *action);
        }
        let team = self.team_to_move();
        let mut board = self.board;
        let mut column = board[action.col];
        column[action.row] = Some(team);
        board[action.col] = column;
        let turn = self.turn.wrapping_add(1);
        let r = TicTacToeState { board, turn };
        proof {
            broadcast use vstd::array::group_array_axioms;

            assert(r.board =~~= self.spec_apply(*action).board);
        }
        r
    }

    fn is_terminal(&self) -> (r: bool) {
        self.game_result().is_some()
    }

    fn game_result(&self) -> (r: Option<TwoPlayerGameResult<TwoPlayerTeam>>) {
        if let Some(team) = self.first_owned(Line::Row) {
            return Some(TwoPlayerGameResult::Winner(team));
        }
        if let Some(team) = self.first_owned(Line::Column) {
            return Some(TwoPlayerGameResult::Winner(team));
        }
        if N > 0 {
            if let Some(team) = self.owner_of(Line::Diagonal, 0) {
                return Some(TwoPlayerGameResult::Winner(team));
            }
            if let Some(team) = self.owner_of(Line::AntiDiagonal, 0) {
                return Some(TwoPlayerGameResult::Winner(team));
            }
        }
        if self.is_full() {
            Some(TwoPlayerGameResult::Draw)
        } else {
            None
        }
    }

    proof fn lemma_over_has_result(&self) {
    }

    proof fn lemma_clone_exact(a: Self, b: Self) {
    }

    proof fn lemma_teams_alternate(&self, action: TicTacToeAction) {
        self.lemma_free_cells(N as nat, action);
        self.lemma_placed(action.col as int, action.row as int, self.spec_team_to_move());
    }

    proof fn lemma_rank_decreases(&self, action: TicTacToeAction) {
        self.lemma_free_cells(N as nat, action);
        self.lemma_free_cells_after(
            action.col as int,
            action.row as int,
            self.spec_team_to_move(),
            N as nat,
        );
    }
}

/// Two bits for a cell: 3 for a mark of the first team, 2 for one of the
/// second, 0 for none.
pub open spec fn cell_code(mark: Option<TwoPlayerTeam>) -> u64 {
    match mark {
        Some(TwoPlayerTeam::One) => 3,
        Some(TwoPlayerTeam::Two) => 2,
        None => 0,
    }
}

impl<const N: usize> TicTacToeState<N> {
    /// `seed` with the codes of the first `rows` cells of column `x` shifted
    /// in from the right, two bits each.
    pub open spec fn packed_in(&self, x: int, rows: nat, seed: u64) -> u64
        decreases rows,
    {
        if rows == 0 {
            seed
        } else {
            (self.packed_in(x, (rows - 1) as nat, seed) << 2) | cell_code(self.cell(x, rows - 1))
        }
    }

    /// The codes of the cells of the first `cols` columns, two bits each, the
    /// last cell in the lowest bits. Bits shifted out beyond the 64th are
    /// lost.
    pub open spec fn packed(&self, cols: nat) -> u64
        decreases cols,
    {
        if cols == 0 {
            0
        } else {
            self.packed_in(cols - 1, N as nat, self.packed((cols - 1) as nat))
        }
    }
}

impl<const N: usize> TranspositionHash for TicTacToeState<N> {
    /// The marks of the board, two bits a cell. The empty board has
    /// signature 0, which no cache stores.
    open spec fn spec_hash(&self) -> u64 {
        self.packed(N as nat)
    }

    fn hash(&self) -> (h: u64) {
        let mut hash: u64 = 0;
        let mut x: usize = 0;
        while x < N
            invariant
                x <= N,
                hash == self.packed(x as nat),
            decreases N - x,
        {
            let ghost seed = hash;
            let mut y: usize = 0;
            while y < N
                invariant
                    x < N,
                    y <= N,
                    seed == self.packed(x as nat),
                    hash == self.packed_in(x as int, y as nat, seed),
                decreases N - y,
            {
                let code: u64 = match self.board[x][y] {
                    Some(TwoPlayerTeam::One) => 3,
                    Some(TwoPlayerTeam::Two) => 2,
                    None => 0,
                };
                hash = (hash << 2) | code;
                y = y + 1;
            }
            x = x + 1;
        }
        hash
    }
}

/// What a finished game is worth to a team: 100 for a win, -100 for a loss, 0
/// for a draw. A game that is not finished is worth 0.
pub open spec fn outcome_score<const N: usize>(state: TicTacToeState<N>, team: TwoPlayerTeam) -> i32 {
    match state.spec_game_result() {
        Some(TwoPlayerGameResult::Winner(winner)) => if winner == team {
            100i32
        } else {
            (-100) as i32
        },
        Some(TwoPlayerGameResult::Draw) => 0i32,
        None => 0i32,
    }
}

/// Scores a position of tic-tac-toe by how the game ended.
pub struct TicTacToeEvaluator;

impl TicTacToeEvaluator {
    /// Returns what a position in which the game is not over is taken to be
    /// worth: nothing.
    pub fn heuristic<const N: usize>(&self, state: &TicTacToeState<N>) -> (score: i32)
        ensures
            score == 0,
    {
        0
    }
}

impl<const N: usize> Evaluator<TicTacToe<N>> for TicTacToeEvaluator {
    open spec fn scoring(&self) -> spec_fn(TicTacToeState<N>, TwoPlayerTeam) -> i32 {
        |state: TicTacToeState<N>, team: TwoPlayerTeam| outcome_score(state, team)
    }

    /// The evaluator never fails.
    open spec fn failures(&self) -> Set<Error> {
        Set::empty()
    }

    fn evaluate_for(&mut self, state: &TicTacToeState<N>, team: &TwoPlayerTeam) -> (r: Result<i32, Error>) {
        let score: i32 = {
            match state.game_result() {
                Some(TwoPlayerGameResult::Winner(winner)) => {
                    if winner == *team {
                        100
                    } else {
                        -100
                    }
                },
                Some(TwoPlayerGameResult::Draw) => 0,
                None => self.heuristic(state),
            }
        };
        Ok(score)
    }
}

/// The scoring of tic-tac-toe is symmetric: what a team wins, the other
/// loses.
pub proof fn lemma_scoring_is_symmetric<const N: usize>()
    ensures
        symmetric::<TicTacToe<N>>(Evaluator::<TicTacToe<N>>::scoring(&TicTacToeEvaluator)),
{
    let scoring = Evaluator::<TicTacToe<N>>::scoring(&TicTacToeEvaluator);
    assert forall|state: TicTacToeState<N>, team: TwoPlayerTeam| #[trigger]
        scoring(state, team.spec_opponent()) as int == -(scoring(state, team) as int) by {
        assert(scoring(state, team) == outcome_score(state, team));
        assert(scoring(state, team.spec_opponent()) == outcome_score(state, team.spec_opponent()));
    }
}

impl<const N: usize> TicTacToeState<N> {
    /// A board that is not full has a free cell among its columns.
    pub proof fn lemma_free_cell_exists(&self)
        requires
            !self.full(),
        ensures
            self.free_cells(N as nat).len() > 0,
    {
        let (x, y) = choose|x: int, y: int|
            0 <= x < N && 0 <= y < N && !((#[trigger] self.cell(x, y)) is Some);
        let action = TicTacToeAction { col: x as usize, row: y as usize };
        self.lemma_free_cells(N as nat, action);
        assert(self.free_cells(N as nat).contains(action));
    }
}

/// Every position of tic-tac-toe in which the game is not over has an
/// action: the game is playable to every depth.
pub proof fn lemma_is_playable<const N: usize>(state: TicTacToeState<N>, depth: nat)
    ensures
        playable::<TicTacToe<N>>(state, depth),
    decreases depth, 1nat, 0nat,
{
    if depth > 0 && !state.spec_is_terminal() {
        state.lemma_free_cell_exists();
        lemma_replies_are_playable::<N>(state, depth, state.spec_actions().len());
    }
}

/// The positions that follow a position of tic-tac-toe are playable.
proof fn lemma_replies_are_playable<const N: usize>(state: TicTacToeState<N>, depth: nat, count: nat)
    requires
        depth > 0,
    ensures
        replies_playable::<TicTacToe<N>>(state, depth, count),
    decreases depth, 0nat, count,
{
    if count > 0 {
        lemma_replies_are_playable::<N>(state, depth, (count - 1) as nat);
        lemma_is_playable::<N>(
            state.spec_apply(state.spec_actions()[count - 1]),
            (depth - 1) as nat,
        );
    }
}

/// In tic-tac-toe negamax and minimax agree at every depth: the negamax
/// value of a position is its minimax value where the first team is to move,
/// and the negative of it where the second is.
pub proof fn law_searches_agree<const N: usize>(state: TicTacToeState<N>, depth: nat)
    ensures
        negamax_value::<TicTacToe<N>>(
            Evaluator::<TicTacToe<N>>::scoring(&TicTacToeEvaluator),
            state,
            depth,
        ) == state.spec_team_to_move().spec_polarity().spec_sign() * minimax_value::<TicTacToe<N>>(
            Evaluator::<TicTacToe<N>>::scoring(&TicTacToeEvaluator),
            state,
            depth,
        ),
{
    lemma_scoring_is_symmetric::<N>();
    lemma_is_playable::<N>(state, depth);
    law_negamax_agrees_with_minimax::<TicTacToe<N>>(
        Evaluator::<TicTacToe<N>>::scoring(&TicTacToeEvaluator),
        state,
        depth,
    );
}

/// No line of a board without marks has an owner.
proof fn lemma_blank_lines<const N: usize>(state: TicTacToeState<N>, kind: Line, lines: nat)
    requires
        lines <= N,
        forall|x: int, y: int| 0 <= x < N && 0 <= y < N ==> (#[trigger] state.cell(x, y)) is None,
    ensures
        state.first_owner(kind, lines) is None,
        lines > 0 ==> state.line_owner(kind, lines - 1) is None,
    decreases lines,
{
    if lines > 0 {
        lemma_blank_lines::<N>(state, kind, (lines - 1) as nat);
        let first = line_cell(kind, lines - 1, 0, N as int);
        assert(state.cell(first.0, first.1) is None);
    }
}

/// The game begins on a board without marks, before any turn and with the first team to move. On a board of at least one cell the game
/// is then not over.
pub proof fn lemma_initial_state<const N: usize>()
    ensures
        forall|x: int, y: int|
            0 <= x < N && 0 <= y < N ==> (#[trigger] TicTacToe::<N>::spec_initial_state().cell(
                x,
                y,
            )) is None,
        TicTacToe::<N>::spec_initial_state().spec_turn() == 0,
        TicTacToe::<N>::spec_initial_state().spec_team_to_move() == TwoPlayerTeam::One,
        N >= 1 ==> !TicTacToe::<N>::spec_initial_state().spec_is_terminal(),
        N >= 1 ==> TicTacToe::<N>::spec_initial_state().spec_game_result() is None,
{
    let state = TicTacToe::<N>::spec_initial_state();
    assert forall|x: int, y: int| 0 <= x < N && 0 <= y < N implies (#[trigger] state.cell(
        x,
        y,
    )) is None by {
        assert(state.board[x][y] is None);
    }
    if N >= 1 {
        lemma_blank_lines::<N>(state, Line::Row, N as nat);
        lemma_blank_lines::<N>(state, Line::Column, N as nat);
        lemma_blank_lines::<N>(state, Line::Diagonal, 1);
        lemma_blank_lines::<N>(state, Line::AntiDiagonal, 1);
        assert(state.winner() is None);
        assert(state.cell(0, 0) is None);
        assert(!state.full());
    }
}

} // verus!
