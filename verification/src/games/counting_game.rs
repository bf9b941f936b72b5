//! The counting game: two teams take turns to add 1, 2 or 3 to a total, and
//! the game is over when the total has reached 21.

use vstd::prelude::*;
use crate::model::error::Error;
use crate::agents::evaluator::Evaluator;
use crate::model::action::GwAction;
use crate::model::game::Game;
use crate::model::game_result::GwGameResult;
use crate::model::state::GwState;
use crate::model::team::{GwTeam, Polarity};

verus! {

/// The total at which the game is over.
pub const TARGET: u8 = 21;

/// A game, where each team can add 1, 2 or 3 to a total. The game is over
/// when the total has reached 21.
#[derive(Debug, Clone, Copy)]
pub struct CountingGame;

/// The two teams of the counting game.
#[derive(Copy, Clone, Debug, PartialEq, Eq, Structural)]
pub enum CountingTeam {
    One,
    Two,
}

impl GwTeam for CountingTeam {
    open spec fn spec_opponent(&self) -> Self {
        match self {
            CountingTeam::One => CountingTeam::Two,
            CountingTeam::Two => CountingTeam::One,
        }
    }

    open spec fn spec_polarity(&self) -> Polarity {
        match self {
            CountingTeam::One => Polarity::Positive,
            CountingTeam::Two => Polarity::Negative,
        }
    }

    fn opponent(&self) -> (r: Self) {
        match self {
            CountingTeam::One => CountingTeam::Two,
            CountingTeam::Two => CountingTeam::One,
        }
    }

    fn polarity(&self) -> (r: Polarity) {
        match self {
            CountingTeam::One => Polarity::Positive,
            CountingTeam::Two => Polarity::Negative,
        }
    }

    proof fn lemma_opponent_flips(&self) {
    }

    proof fn lemma_polarity_decides(a: Self, b: Self) {
    }
}

/// How a counting game ended.
#[derive(Copy, Clone, PartialEq, Eq, Debug, Structural)]
pub enum CountingGameResult {
    Winner(CountingTeam),
    Draw,
}

impl GwGameResult<CountingTeam> for CountingGameResult {
    open spec fn spec_winner(&self) -> Option<CountingTeam> {
        match self {
            CountingGameResult::Winner(team) => Some(*team),
            CountingGameResult::Draw => None,
        }
    }

    fn winner(&self) -> (r: Option<CountingTeam>) {
        match self {
            CountingGameResult::Winner(team) => Some(*team),
            CountingGameResult::Draw => None,
        }
    }

    fn is_draw(&self) -> (r: bool) {
        match self {
            CountingGameResult::Winner(_) => false,
            CountingGameResult::Draw => true,
        }
    }
}

/// A position of the counting game: the total, and the number of turns
/// taken.
#[derive(Copy, Clone, Debug, PartialEq, Eq)]
pub struct CountingState {
    pub total: u8,
    pub turn: usize,
}

/// Adding `increment` to the total.
#[derive(Copy, Clone, Debug, PartialEq, Eq, Structural)]
pub struct CountingAction {
    pub increment: u8,
}

impl CountingState {
    /// Returns the total.
    pub fn total(&self) -> (total: u8)
        ensures
            total == self.total,
    {
        self.total
    }

    /// Returns the number of turns taken.
    pub fn turn(&self) -> (turn: usize)
        ensures
            turn == self.turn,
    {
        self.turn
    }
}

impl GwAction<CountingGame> for CountingAction {
}

impl Game for CountingGame {
    type State = CountingState;

    type Action = CountingAction;

    type Team = CountingTeam;

    type GameResult = CountingGameResult;

    open spec fn spec_initial_state() -> CountingState {
        CountingState { total: 0, turn: 0 }
    }

    open spec fn spec_starting_team() -> CountingTeam {
        CountingTeam::One
    }

    fn initial_state() -> (s: CountingState) {
        CountingState { total: 0, turn: 0 }
    }

    fn starting_team() -> (t: CountingTeam) {
        CountingTeam::One
    }
}

impl GwState<CountingGame> for CountingState {
    open spec fn spec_actions(&self) -> Seq<CountingAction> {
        seq![
            CountingAction { increment: 1 },
            CountingAction { increment: 2 },
            CountingAction { increment: 3 },
        ]
    }

    open spec fn spec_apply(&self, action: CountingAction) -> Self {
        CountingState {
            total: if self.total + action.increment > u8::MAX {
                u8::MAX
            } else {
                (self.total + action.increment) as u8
            },
            turn: if self.turn == usize::MAX {
                0
            } else {
                (self.turn + 1) as usize
            },
        }
    }

    open spec fn spec_team_to_move(&self) -> CountingTeam {
        if self.turn % 2 == 0 {
            CountingTeam::One
        } else {
            CountingTeam::Two
        }
    }

    open spec fn spec_is_terminal(&self) -> bool {
        self.total >= TARGET
    }

    open spec fn spec_game_result(&self) -> Option<CountingGameResult> {
        if self.total >= TARGET {
            Some(CountingGameResult::Winner(self.spec_team_to_move()))
        } else {
            None
        }
    }

    open spec fn spec_rank(&self) -> nat {
        if self.total >= TARGET {
            0
        } else {
            (TARGET - self.total) as nat
        }
    }

    fn actions(&self) -> (r: Vec<CountingAction>) {
        let mut actions: Vec<CountingAction> = Vec::new();
        actions.push(CountingAction { increment: 1 });
        actions.push(CountingAction { increment: 2 });
        actions.push(CountingAction { increment: 3 });
        proof {
            assert(actions@ =~= self.spec_actions());
        }
        actions
    }

    fn is_legal(&self, action: &CountingAction) -> (r: bool) {
        proof {
            let all = self.spec_actions();
            assert(all[0].increment == 1 && all[1].increment == 2 && all[2].increment == 3);
            if action.increment == 1 {
                assert(all[0] == *action);
            }
            if action.increment == 2 {
                assert(all[1] == *action);
            }
            if action.increment == 3 {
                assert(all[2] == *action);
            }
        }
        action.increment <= 3 && action.increment > 0
    }

    fn team_to_move(&self) -> (r: CountingTeam) {
        CountingTeam::One.nth(self.turn)
    }

    fn apply_action(&self, action: &CountingAction) -> (r: Self) {
        proof {
            let all = self.spec_actions();
            assert(all[0].increment == 1 && all[1].increment == 2 && all[2].increment == 3);
        }
        let total = if self.total > u8::MAX - action.increment {
            u8::MAX
        } else {
            self.total + action.increment
        };
        CountingState { total, turn: self.turn.wrapping_add(1) }
    }

    fn is_terminal(&self) -> (r: bool) {
        self.total >= TARGET
    }

    fn game_result(&self) -> (r: Option<CountingGameResult>) {
        if self.total >= TARGET {
            Some(CountingGameResult::Winner(self.team_to_move()))
        } else {
            None
        }
    }

    proof fn lemma_over_has_result(&self) {
    }

    proof fn lemma_clone_exact(a: Self, b: Self) {
    }

    proof fn lemma_teams_alternate(&self, action: CountingAction) {
        assert(usize::MAX % 2 == 1) by {
            assert(usize::MAX == 0xffff_ffff || usize::MAX == 0xffff_ffff_ffff_ffff);
        }
    }

    proof fn lemma_rank_decreases(&self, action: CountingAction) {
        let all = self.spec_actions();
        assert(all[0].increment == 1 && all[1].increment == 2 && all[2].increment == 3);
    }
}

/// What a position of the counting game is worth to a team: where the game
/// is over, 100 if the team has won and -100 if it has lost; where it is
/// not, the total if the team is to move and the negative of the total if it
/// is not.
pub open spec fn counting_score(state: CountingState, team: CountingTeam) -> i32 {
    if state.total >= TARGET {
        if state.spec_team_to_move() == team {
            100i32
        } else {
            (-100) as i32
        }
    } else if state.spec_team_to_move() == team {
        state.total as i32
    } else {
        (-(state.total as int)) as i32
    }
}

/// Scores a position of the counting game: the higher the total, the better
/// for the team to move.
pub struct CountingGameEvaluator;

impl Evaluator<CountingGame> for CountingGameEvaluator {
    open spec fn scoring(&self) -> spec_fn(CountingState, CountingTeam) -> i32 {
        |state: CountingState, team: CountingTeam| counting_score(state, team)
    }

    /// The evaluator never fails.
    open spec fn failures(&self) -> Set<Error> {
        Set::empty()
    }

    fn evaluate_for(&mut self, state: &CountingState, team: &CountingTeam) -> (r: Result<i32, Error>) {
        let score: i32 = {
            let mine = state.team_to_move() == *team;
            if state.is_terminal() {
                if mine {
                    100
                } else {
                    -100
                }
            } else if mine {
                state.total as i32
            } else {
                -(state.total as i32)
            }
        };
        Ok(score)
    }
}

} // verus!
