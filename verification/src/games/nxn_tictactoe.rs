//! Tic-tac-toe on a board of N by N cells, in which a finished game offers
//! no action.

use vstd::prelude::*;
use crate::model::error::Error;
use crate::agents::evaluator::Evaluator;
use crate::cache::traits::TranspositionHash;
use crate::model::action::GwAction;
use crate::model::game::Game;
use crate::games::tic_tac_toe::{line_cell, Line};
use crate::model::game_result::GameResult;
use crate::model::state::GwState;
use crate::model::team::{GwTeam, Team};

verus! {

/// Tic-tac-toe on a board of N by N cells.
#[derive(Copy, Clone, Debug, PartialEq, Eq)]
pub struct NTicTacToe<const N: usize>;

/// A mark on the cell at a row and a column of the board.
#[derive(Copy, Clone, Debug, PartialEq, Eq)]
pub struct NTTTAction {
    pub row: usize,
    pub col: usize,
}

impl NTTTAction {
    /// The mark on the cell at `row` and `col`.
    pub fn new(row: usize, col: usize) -> (action: Self)
        ensures
            action.row == row,
            action.col == col,
    {
        NTTTAction { row, col }
    }
}

/// A position of tic-tac-toe: the marks on the board, and the team to
/// move.
#[derive(Copy, Clone, PartialEq, Eq, Debug)]
pub struct NTTTState<const N: usize> {
    board: [[Option<Team>; N]; N],
    player: Team,
}

impl<const N: usize> NTTTState<N> {
    /// The mark on the cell at the given indices, if there is one.
    pub closed spec fn cell(&self, x: int, y: int) -> Option<Team> {
        self.board[x][y]
    }

    /// The team to move.
    pub closed spec fn spec_player(&self) -> Team {
        self.player
    }

    /// The team that holds every cell of a line, if one does.
    pub open spec fn line_owner(&self, kind: Line, line: int) -> Option<Team> {
        let first = line_cell(kind, line, 0, N as int);
        if N > 0 && self.cell(first.0, first.1) is Some && forall|k: int|
            0 <= k < N ==> self.cell(
                #[trigger] line_cell(kind, line, k, N as int).0,
                line_cell(kind, line, k, N as int).1,
            ) == self.cell(first.0, first.1) {
            self.cell(first.0, first.1)
        } else {
            None
        }
    }

    /// The owner of the first owned line among the first `lines` lines of a
    /// kind.
    pub open spec fn first_owner(&self, kind: Line, lines: nat) -> Option<Team>
        decreases lines,
    {
        if lines == 0 {
            None
        } else {
            match self.first_owner(kind, (lines - 1) as nat) {
                Some(team) => Some(team),
                None => self.line_owner(kind, lines - 1),
            }
        }
    }

    /// The team that wins: the owner of the first owned row, else of the
    /// first owned column, else of the diagonal, else of the anti-diagonal.
    pub open spec fn winner(&self) -> Option<Team> {
        match self.first_owner(Line::Row, N as nat) {
            Some(team) => Some(team),
            None => match self.first_owner(Line::Column, N as nat) {
                Some(team) => Some(team),
                None => match self.line_owner(Line::Diagonal, 0) {
                    Some(team) => Some(team),
                    None => self.line_owner(Line::AntiDiagonal, 0),
                },
            },
        }
    }

    /// The empty cells among the first `upto` cells of row `x`, as marks that
    /// can be made.
    pub open spec fn free_in(&self, x: int, upto: nat) -> Seq<NTTTAction>
        decreases upto,
    {
        if upto == 0 {
            Seq::empty()
        } else if self.cell(x, upto - 1) is None {
            self.free_in(x, (upto - 1) as nat).push(
                NTTTAction { row: x as usize, col: (upto - 1) as usize },
            )
        } else {
            self.free_in(x, (upto - 1) as nat)
        }
    }

    /// The empty cells of the first `rows` rows, row by row.
    pub open spec fn free_cells(&self, rows: nat) -> Seq<NTTTAction>
        decreases rows,
    {
        if rows == 0 {
            Seq::empty()
        } else {
            self.free_cells((rows - 1) as nat) + self.free_in(rows - 1, N as nat)
        }
    }

    /// Whether no cell is empty.
    pub open spec fn full(&self) -> bool {
        forall|x: int, y: int| 0 <= x < N && 0 <= y < N ==> (#[trigger] self.cell(x, y)) is Some
    }

    /// The position with the given marks in which the given team is to move.
    pub fn from_board(board: [[Option<Team>; N]; N], cur_player: Team) -> (state: Self)
        ensures
            state.spec_player() == cur_player,
            forall|x: int, y: int|
                0 <= x < N && 0 <= y < N ==> #[trigger] state.cell(x, y) == board[x][y],
    {
        NTTTState { board, player: cur_player }
    }

    /// Returns the marks of the cells of the given first index.
    pub fn row(&self, index: usize) -> (marks: [Option<Team>; N])
        requires
            index < N,
        ensures
            forall|y: int| 0 <= y < N ==> #[trigger] marks[y] == self.cell(index as int, y),
    {
        self.board[index]
    }

    /// Returns the mark on the cell at the given indices, if there is one.
    pub fn tile(&self, x: usize, y: usize) -> (mark: Option<Team>)
        requires
            x < N,
            y < N,
        ensures
            mark == self.cell(x as int, y as int),
    {
        self.board[x][y]
    }

    /// Returns the team that holds every cell of the given line, if one
    /// does.
    pub fn owner_of(&self, kind: Line, line: usize) -> (owner: Option<Team>)
        requires
            line < N,
        ensures
            owner == self.line_owner(kind, line as int),
    {
        let first = match kind {
            Line::Row => self.board[line][0],
            Line::Column => self.board[0][line],
            Line::Diagonal => self.board[0][0],
            Line::AntiDiagonal => self.board[0][N - 1],
        };
        let first_tile = match first {
            Some(team) => team,
            None => {
                return None;
            },
        };
        let mut k: usize = 0;
        while k < N
            invariant
                k <= N,
                line < N,
                first == self.cell(
                    line_cell(kind, line as int, 0, N as int).0,
                    line_cell(kind, line as int, 0, N as int).1,
                ),
                first == Some(first_tile),
                forall|j: int|
                    0 <= j < k ==> self.cell(
                        #[trigger] line_cell(kind, line as int, j, N as int).0,
                        line_cell(kind, line as int, j, N as int).1,
                    ) == first,
            decreases N - k,
        {
            let tile = match kind {
                Line::Row => self.board[line][k],
                Line::Column => self.board[k][line],
                Line::Diagonal => self.board[k][k],
                Line::AntiDiagonal => self.board[k][N - 1 - k],
            };
            let same = match tile {
                Some(team) => team == first_tile,
                None => false,
            };
            if !same {
                proof {
                    assert(self.cell(
                        line_cell(kind, line as int, k as int, N as int).0,
                        line_cell(kind, line as int, k as int, N as int).1,
                    ) != first);
                }
                return None;
            }
            k = k + 1;
        }
        first
    }

    /// Returns the owner of the first owned line of the given kind.
    pub fn first_owned(&self, kind: Line) -> (owner: Option<Team>)
        ensures
            owner == self.first_owner(kind, N as nat),
    {
        let mut line: usize = 0;
        while line < N
            invariant
                line <= N,
                self.first_owner(kind, line as nat) is None,
            decreases N - line,
        {
            let owner = self.owner_of(kind, line);
            if owner.is_some() {
                proof {
                    self.lemma_first_owner_stays(kind, (line + 1) as nat, N as nat);
                }
                return owner;
            }
            line = line + 1;
        }
        None
    }

    /// Once a line is owned, the first owner stays the same however many
    /// more lines are looked at.
    pub proof fn lemma_first_owner_stays(&self, kind: Line, seen: nat, lines: nat)
        requires
            seen <= lines,
            self.first_owner(kind, seen) is Some,
        ensures
            self.first_owner(kind, lines) == self.first_owner(kind, seen),
        decreases lines,
    {
        if seen < lines {
            self.lemma_first_owner_stays(kind, seen, (lines - 1) as nat);
        }
    }

    /// Returns `true` if no cell is empty.
    pub fn is_full(&self) -> (full: bool)
        ensures
            full == self.full(),
    {
        let mut x: usize = 0;
        while x < N
            invariant
                x <= N,
                forall|i: int, j: int| 0 <= i < x && 0 <= j < N ==> (#[trigger] self.cell(i, j)) is Some,
            decreases N - x,
        {
            let mut y: usize = 0;
            while y < N
                invariant
                    x < N,
                    y <= N,
                    forall|i: int, j: int|
                        0 <= i < x && 0 <= j < N ==> (#[trigger] self.cell(i, j)) is Some,
                    forall|j: int| 0 <= j < y ==> (#[trigger] self.cell(x as int, j)) is Some,
                decreases N - y,
            {
                if self.board[x][y].is_none() {
                    proof {
                        assert(self.cell(x as int, y as int) is None);
                    }
                    return false;
                }
                y = y + 1;
            }
            x = x + 1;
        }
        true
    }
}

impl<const N: usize> NTTTState<N> {
    /// The position after `team` has marked the cell at `row` and `col`.
    pub closed spec fn placed(&self, row: int, col: int, team: Team) -> Self {
        NTTTState {
            board: vstd::array::spec_array_update(
                self.board,
                row,
                vstd::array::spec_array_update(self.board[row], col, Some(team)),
            ),
            player: team.spec_opponent(),
        }
    }

    /// A mark changes the cell that it is made on, and no other; the
    /// opponent of the team that made it is then to move.
    pub proof fn lemma_placed(&self, row: int, col: int, team: Team)
        requires
            0 <= row < N,
            0 <= col < N,
        ensures
            forall|x: int, y: int|
                0 <= x < N && 0 <= y < N ==> #[trigger] self.placed(row, col, team).cell(x, y)
                    == if x == row && y == col {
                    Some(team)
                } else {
                    self.cell(x, y)
                },
            self.placed(row, col, team).spec_player() == team.spec_opponent(),
    {
        broadcast use vstd::array::group_array_axioms;

    }

    /// A cell is among the free cells of its row exactly if it is empty.
    pub proof fn lemma_free_in(&self, x: int, upto: nat, action: NTTTAction)
        requires
            0 <= x <= usize::MAX,
            upto <= usize::MAX,
        ensures
            self.free_in(x, upto).contains(action) <==> (action.row == x && action.col < upto
                && self.cell(x, action.col as int) is None),
        decreases upto,
    {
        if upto > 0 {
            self.lemma_free_in(x, (upto - 1) as nat, action);
            let rest = self.free_in(x, (upto - 1) as nat);
            if self.cell(x, upto - 1) is None {
                let last = NTTTAction { row: x as usize, col: (upto - 1) as usize };
                assert(rest.push(last).last() == last);
                if rest.push(last).contains(action) {
                    let i = choose|i: int| 0 <= i < rest.len() + 1 && rest.push(last)[i] == action;
                    if i < rest.len() {
                        assert(rest[i] == action);
                    }
                }
                if rest.contains(action) {
                    let i = choose|i: int| 0 <= i < rest.len() && rest[i] == action;
                    assert(rest.push(last)[i] == action);
                }
                if action == last {
                    assert(rest.push(last)[rest.len() as int] == action);
                }
            }
        }
    }

    /// A cell is among the free cells of the board exactly if it is empty.
    pub proof fn lemma_free_cells(&self, rows: nat, action: NTTTAction)
        requires
            rows <= N,
        ensures
            self.free_cells(rows).contains(action) <==> (action.row < rows && action.col < N
                && self.cell(action.row as int, action.col as int) is None),
        decreases rows,
    {
        if rows > 0 {
            self.lemma_free_cells((rows - 1) as nat, action);
            self.lemma_free_in(rows - 1, N as nat, action);
            let left = self.free_cells((rows - 1) as nat);
            let right = self.free_in(rows - 1, N as nat);
            if (left + right).contains(action) {
                let i = choose|i: int| 0 <= i < (left + right).len() && (left + right)[i] == action;
                if i < left.len() {
                    assert(left[i] == action);
                } else {
                    assert(right[i - left.len()] == action);
                }
            }
            if left.contains(action) {
                let i = choose|i: int| 0 <= i < left.len() && left[i] == action;
                assert((left + right)[i] == action);
            }
            if right.contains(action) {
                let i = choose|i: int| 0 <= i < right.len() && right[i] == action;
                assert((left + right)[left.len() + i] == action);
            }
        }
    }

    /// A mark on an empty cell leaves one free cell less in its row, and
    /// as many as before in every other.
    pub proof fn lemma_free_in_after(&self, row: int, col: int, team: Team, x: int, upto: nat)
        requires
            0 <= row < N,
            0 <= col < N,
            0 <= x < N,
            upto <= N,
            self.cell(row, col) is None,
        ensures
            self.placed(row, col, team).free_in(x, upto).len() + (if x == row && col < upto {
                1nat
            } else {
                0nat
            }) == self.free_in(x, upto).len(),
        decreases upto,
    {
        if upto > 0 {
            self.lemma_placed(row, col, team);
            self.lemma_free_in_after(row, col, team, x, (upto - 1) as nat);
            assert(self.placed(row, col, team).cell(x, upto - 1) == if x == row && upto - 1 == col {
                Some(team)
            } else {
                self.cell(x, upto - 1)
            });
        }
    }

    /// A mark on an empty cell leaves one free cell less on the board.
    pub proof fn lemma_free_cells_after(&self, row: int, col: int, team: Team, rows: nat)
        requires
            0 <= row < N,
            0 <= col < N,
            rows <= N,
            self.cell(row, col) is None,
        ensures
            self.placed(row, col, team).free_cells(rows).len() + (if row < rows {
                1nat
            } else {
                0nat
            }) == self.free_cells(rows).len(),
        decreases rows,
    {
        if rows > 0 {
            self.lemma_free_cells_after(row, col, team, (rows - 1) as nat);
            self.lemma_free_in_after(row, col, team, rows - 1, N as nat);
        }
    }
}

impl<const N: usize> GwAction<NTicTacToe<N>> for NTTTAction {
}

impl<const N: usize> Game for NTicTacToe<N> {
    type State = NTTTState<N>;

    type Action = NTTTAction;

    type Team = Team;

    type GameResult = GameResult<Team>;

    closed spec fn spec_initial_state() -> NTTTState<N> {
        NTTTState {
            board: vstd::array::spec_array_fill_for_copy_type(
                vstd::array::spec_array_fill_for_copy_type(None),
            ),
            player: Team::One,
        }
    }

    open spec fn spec_starting_team() -> Team {
        Team::One
    }

    fn initial_state() -> (s: NTTTState<N>) {
        NTTTState { board: [[None; N]; N], player: Team::One }
    }

    fn starting_team() -> (t: Team) {
        Team::One
    }
}

impl<const N: usize> GwState<NTicTacToe<N>> for NTTTState<N> {
    open spec fn spec_actions(&self) -> Seq<NTTTAction> {
        if self.spec_game_result() is Some {
            Seq::empty()
        } else {
            self.free_cells(N as nat)
        }
    }

    open spec fn spec_apply(&self, action: NTTTAction) -> Self {
        self.placed(action.row as int, action.col as int, self.spec_team_to_move())
    }

    open spec fn spec_team_to_move(&self) -> Team {
        self.spec_player()
    }

    open spec fn spec_is_terminal(&self) -> bool {
        self.spec_game_result() is Some
    }

    open spec fn spec_game_result(&self) -> Option<GameResult<Team>> {
        match self.winner() {
            Some(team) => Some(GameResult::Win(team)),
            None => if self.full() {
                Some(GameResult::Draw)
            } else {
                None
            },
        }
    }

    open spec fn spec_rank(&self) -> nat {
        self.free_cells(N as nat).len()
    }

    fn actions(&self) -> (r: Vec<NTTTAction>) {
        let mut actions: Vec<NTTTAction> = Vec::new();
        if self.is_terminal() {
            return actions;
        }
        let mut x: usize = 0;
        while x < N
            invariant
                x <= N,
                actions@ == self.free_cells(x as nat),
            decreases N - x,
        {
            let ghost before = actions@;
            let mut y: usize = 0;
            while y < N
                invariant
                    x < N,
                    y <= N,
                    before == self.free_cells(x as nat),
                    actions@ == before + self.free_in(x as int, y as nat),
                decreases N - y,
            {
                if self.board[x][y].is_none() {
                    actions.push(NTTTAction::new(x, y));
                    proof {
                        assert(actions@ =~= before + self.free_in(x as int, (y + 1) as nat));
                    }
                }
                y = y + 1;
            }
            x = x + 1;
        }
        actions
    }

    fn is_legal(&self, action: &NTTTAction) -> (r: bool) {
        proof {
            self.lemma_free_cells(N as nat, *action);
        }
        !self.is_terminal() && action.row < N && action.col < N
            && self.board[action.row][action.col].is_none()
    }

    fn team_to_move(&self) -> (r: Team) {
        self.player
    }

    fn apply_action(&self, action: &NTTTAction) -> (r: Self) {
        proof {
            self.lemma_free_cells(N as nat, *action);
        }
        let team = self.team_to_move();
        let mut board = self.board;
        let mut marks = board[action.row];
        marks[action.col] = Some(team);
        board[action.row] = marks;
        let r = NTTTState { board, player: team.opponent() };
        proof {
            broadcast use vstd::array::group_array_axioms;

            assert(r.board =~~= self.spec_apply(*action).board);
        }
        r
    }

    fn is_terminal(&self) -> (r: bool) {
        let result = self.game_result();
        assert(self.spec_is_terminal() == (self.spec_game_result() is Some));
        result.is_some()
    }

    fn game_result(&self) -> (r: Option<GameResult<Team>>) {
        if let Some(team) = self.first_owned(Line::Row) {
            return Some(GameResult::Win(team));
        }
        if let Some(team) = self.first_owned(Line::Column) {
            return Some(GameResult::Win(team));
        }
        if N > 0 {
            if let Some(team) = self.owner_of(Line::Diagonal, 0) {
                return Some(GameResult::Win(team));
            }
            if let Some(team) = self.owner_of(Line::AntiDiagonal, 0) {
                return Some(GameResult::Win(team));
            }
        }
        if self.is_full() {
            Some(GameResult::Draw)
        } else {
            None
        }
    }

    proof fn lemma_over_has_result(&self) {
    }

    proof fn lemma_clone_exact(a: Self, b: Self) {
    }

    proof fn lemma_teams_alternate(&self, action: NTTTAction) {
        self.lemma_free_cells(N as nat, action);
        self.lemma_placed(action.row as int, action.col as int, self.spec_team_to_move());
    }

    proof fn lemma_rank_decreases(&self, action: NTTTAction) {
        self.lemma_free_cells(N as nat, action);
        self.lemma_free_cells_after(
            action.row as int,
            action.col as int,
            self.spec_team_to_move(),
            N as nat,
        );
    }
}

/// Two bits for a cell: 3 for a mark of the first team, 2 for one of the
/// second, 0 for none.
pub open spec fn cell_code(mark: Option<Team>) -> u64 {
    match mark {
        Some(Team::One) => 3,
        Some(Team::Two) => 2,
        None => 0,
    }
}

impl<const N: usize> NTTTState<N> {
    /// `seed` with the codes of the first `upto` cells of row `x` shifted
    /// in from the right, two bits each.
    pub open spec fn packed_in(&self, x: int, upto: nat, seed: u64) -> u64
        decreases upto,
    {
        if upto == 0 {
            seed
        } else {
            (self.packed_in(x, (upto - 1) as nat, seed) << 2) | cell_code(self.cell(x, upto - 1))
        }
    }

    /// The codes of the cells of the first `rows` rows, two bits each, the
    /// last cell in the lowest bits. Bits shifted out beyond the 64th are
    /// lost.
    pub open spec fn packed(&self, rows: nat) -> u64
        decreases rows,
    {
        if rows == 0 {
            0
        } else {
            self.packed_in(rows - 1, N as nat, self.packed((rows - 1) as nat))
        }
    }
}

impl<const N: usize> TranspositionHash for NTTTState<N> {
    /// The marks of the board, two bits a cell. The empty board has
    /// signature 0, which no cache stores.
    open spec fn spec_hash(&self) -> u64 {
        self.packed(N as nat)
    }

    fn hash(&self) -> (h: u64) {
        let mut hash: u64 = 0;
        let mut x: usize = 0;
        while x < N
            invariant
                x <= N,
                hash == self.packed(x as nat),
            decreases N - x,
        {
            let ghost seed = hash;
            let mut y: usize = 0;
            while y < N
                invariant
                    x < N,
                    y <= N,
                    seed == self.packed(x as nat),
                    hash == self.packed_in(x as int, y as nat, seed),
                decreases N - y,
            {
                let code: u64 = match self.board[x][y] {
                    Some(Team::One) => 3,
                    Some(Team::Two) => 2,
                    None => 0,
                };
                hash = (hash << 2) | code;
                y = y + 1;
            }
            x = x + 1;
        }
        hash
    }
}

/// What a finished game is worth to a team: 100 for a win, -100 for a loss, 0
/// for a draw. A game that is not finished is worth 0.
pub open spec fn outcome_score<const N: usize>(state: NTTTState<N>, team: Team) -> i32 {
    match state.spec_game_result() {
        Some(GameResult::Win(winner)) => if winner == team {
            100i32
        } else {
            (-100) as i32
        },
        Some(GameResult::Draw) => 0i32,
        None => 0i32,
    }
}

/// Scores a position of tic-tac-toe by how the game ended.
pub struct NTTTEvaluator;

impl<const N: usize> Evaluator<NTicTacToe<N>> for NTTTEvaluator {
    open spec fn scoring(&self) -> spec_fn(NTTTState<N>, Team) -> i32 {
        |state: NTTTState<N>, team: Team| outcome_score(state, team)
    }

    /// The evaluator never fails.
    open spec fn failures(&self) -> Set<Error> {
        Set::empty()
    }

    fn evaluate_for(&mut self, state: &NTTTState<N>, team: &Team) -> (r: Result<i32, Error>) {
        let score: i32 = {
            match state.game_result() {
                Some(GameResult::Win(winner)) => {
                    if winner == *team {
                        100
                    } else {
                        -100
                    }
                },
                Some(GameResult::Draw) => 0,
                None => 0,
            }
        };
        Ok(score)
    }
}

impl<const N: usize> NTTTState<N> {
    /// The first empty cell at or after the cell at `row` and `col`, going
    /// through the board row by row.
    pub open spec fn seek(&self, row: nat, col: nat) -> Option<(nat, nat)>
        decreases N - row, N + 1 - col,
    {
        if row >= N {
            None
        } else if col >= N {
            self.seek(row + 1, 0)
        } else if self.cell(row as int, col as int) is None {
            Some((row, col))
        } else {
            self.seek(row, col + 1)
        }
    }
}

/// Walks the actions of a position, row by row. A finished game has none.
pub struct NTTTActionIter<const N: usize> {
    state: NTTTState<N>,
    is_terminal: bool,
    row: usize,
    col: usize,
}

impl<const N: usize> NTTTActionIter<N> {
    /// The position whose actions are walked.
    pub closed spec fn origin(&self) -> NTTTState<N> {
        self.state
    }

    /// Whether the walk is over.
    pub closed spec fn done(&self) -> bool {
        self.is_terminal
    }

    /// The cell at which the walk stands.
    pub closed spec fn at(&self) -> (nat, nat) {
        (self.row as nat, self.col as nat)
    }

    /// The walk stands on the board, or at its end.
    pub closed spec fn wf(&self) -> bool {
        self.row <= N && self.col < N || self.row == N && self.col == 0 || self.is_terminal
    }

    /// Starts a walk over the actions of `state`.
    pub fn new(state: NTTTState<N>) -> (it: Self)
        ensures
            it.wf(),
            it.origin() == state,
            it.done() == state.spec_is_terminal(),
            it.at() == (0nat, 0nat),
    {
        let is_terminal = state.is_terminal();
        NTTTActionIter { state, is_terminal, row: 0, col: 0 }
    }

    /// Hands out the mark on the next empty cell, or nothing, and is then
    /// done, when no empty cell is left.
    pub fn next(&mut self) -> (r: Option<NTTTAction>)
        requires
            old(self).wf(),
        ensures
            final(self).wf(),
            final(self).origin() == old(self).origin(),
            old(self).done() ==> r is None && final(self).done(),
            !old(self).done() ==> (match old(self).origin().seek(old(self).at().0, old(self).at().1) {
                Some(found) => {
                    &&& r == Some(NTTTAction { row: found.0 as usize, col: found.1 as usize })
                    &&& !final(self).done()
                    &&& final(self).origin().seek(final(self).at().0, final(self).at().1)
                        == old(self).origin().seek(found.0, found.1 + 1)
                },
                None => r is None && final(self).done(),
            }),
    {
        if self.is_terminal {
            return None;
        }
        while self.row < N
            invariant
                self.wf(),
                !self.is_terminal,
                !old(self).is_terminal,
                self.row <= N,
                self.row < N ==> self.col < N,
                self.state == old(self).state,
                self.state.seek(self.row as nat, self.col as nat) == old(self).state.seek(
                    old(self).row as nat,
                    old(self).col as nat,
                ),
            decreases N - self.row, N - self.col,
        {
            let ghost row = self.row as nat;
            let ghost col = self.col as nat;
            let found = self.state.board[self.row][self.col].is_none();
            let action = NTTTAction::new(self.row, self.col);
            self.col = self.col + 1;
            if self.col == N {
                self.row = self.row + 1;
                self.col = 0;
            }
            proof {
                assert(self.state.seek(self.row as nat, self.col as nat) == self.state.seek(
                    row,
                    col + 1,
                ));
            }
            if found {
                return Some(action);
            }
        }
        self.is_terminal = true;
        None
    }
}

/// No line of a board without marks has an owner.
proof fn lemma_blank_lines<const N: usize>(state: NTTTState<N>, kind: Line, lines: nat)
    requires
        lines <= N,
        forall|x: int, y: int| 0 <= x < N && 0 <= y < N ==> (#[trigger] state.cell(x, y)) is None,
    ensures
        state.first_owner(kind, lines) is None,
        lines > 0 ==> state.line_owner(kind, lines - 1) is None,
    decreases lines,
{
    if lines > 0 {
        lemma_blank_lines::<N>(state, kind, (lines - 1) as nat);
        let first = line_cell(kind, lines - 1, 0, N as int);
        assert(state.cell(first.0, first.1) is None);
    }
}

/// The game begins on a board without marks, with the first team to move. On a board of at least one cell the game
/// is then not over.
pub proof fn lemma_initial_state<const N: usize>()
    ensures
        forall|x: int, y: int|
            0 <= x < N && 0 <= y < N ==> (#[trigger] NTicTacToe::<N>::spec_initial_state().cell(
                x,
                y,
            )) is None,
        NTicTacToe::<N>::spec_initial_state().spec_player() == Team::One,
        NTicTacToe::<N>::spec_initial_state().spec_team_to_move() == Team::One,
        N >= 1 ==> !NTicTacToe::<N>::spec_initial_state().spec_is_terminal(),
        N >= 1 ==> NTicTacToe::<N>::spec_initial_state().spec_game_result() is None,
{
    let state = NTicTacToe::<N>::spec_initial_state();
    assert forall|x: int, y: int| 0 <= x < N && 0 <= y < N implies (#[trigger] state.cell(
        x,
        y,
    )) is None by {
        assert(state.board[x][y] is None);
    }
    if N >= 1 {
        lemma_blank_lines::<N>(state, Line::Row, N as nat);
        lemma_blank_lines::<N>(state, Line::Column, N as nat);
        lemma_blank_lines::<N>(state, Line::Diagonal, 1);
        lemma_blank_lines::<N>(state, Line::AntiDiagonal, 1);
        assert(state.winner() is None);
        assert(state.cell(0, 0) is None);
        assert(!state.full());
    }
}

} // verus!
