//! A race of two pieces by the roll of a die: in its turn a team rolls the
//! die and moves its piece forward by one step or by as many as it rolled.
//! The first piece to reach the goal wins.

use vstd::prelude::*;
use crate::model::error::Error;
use crate::agents::evaluator::Evaluator;
use crate::agents::expectiminimax::ProbabilisticState;
use crate::model::action::GwAction;
use crate::model::game::Game;
use crate::model::game_result::TwoPlayerGameResult;
use crate::model::state::GwState;
use crate::model::team::{GwTeam, TwoPlayerTeam};

verus! {

/// The number of steps to the goal.
pub const GOAL: u32 = 100;

/// The highest roll of the die.
pub const SIDES: u32 = 6;

/// The race of two pieces by the roll of a die.
#[derive(Debug, Clone, Copy)]
pub struct RandomCounting;

/// Moving the piece forward by `steps`.
#[derive(Debug, Clone, Copy, PartialEq, Eq, Structural)]
pub struct MoveForwardAction {
    pub steps: u32,
}

/// A position of the race: how far each piece has come, the number of turns
/// taken, and what the die shows. While the die shows nothing it is to be
/// rolled, and what follows is for chance to decide.
#[derive(Debug, Clone, Copy, PartialEq, Eq)]
pub struct RCState {
    pub first: u32,
    pub second: u32,
    pub turn: usize,
    pub roll: Option<u32>,
}

impl RCState {
    /// The position in which the die shows `roll`.
    pub open spec fn rolled(&self, roll: u32) -> Self {
        RCState { first: self.first, second: self.second, turn: self.turn, roll: Some(roll) }
    }

    /// The first `count` faces of the die, each as the position in which the
    /// die shows it, and all of the same weight.
    pub open spec fn faces(&self, count: nat) -> Seq<(RCState, u32)>
        decreases count,
    {
        if count == 0 {
            Seq::empty()
        } else {
            self.faces((count - 1) as nat).push((self.rolled(count as u32), 1u32))
        }
    }

    /// Whether the position can be reached in play: no piece is far beyond
    /// the goal, and the die shows one of its faces or nothing.
    pub open spec fn in_play(&self) -> bool {
        &&& self.first < GOAL + SIDES
        &&& self.second < GOAL + SIDES
        &&& self.roll matches Some(roll) ==> 1 <= roll <= SIDES
    }
}

impl GwAction<RandomCounting> for MoveForwardAction {
}

impl Game for RandomCounting {
    type State = RCState;

    type Action = MoveForwardAction;

    type Team = TwoPlayerTeam;

    type GameResult = TwoPlayerGameResult<TwoPlayerTeam>;

    open spec fn spec_initial_state() -> RCState {
        RCState { first: 0, second: 0, turn: 0, roll: None }
    }

    open spec fn spec_starting_team() -> TwoPlayerTeam {
        TwoPlayerTeam::One
    }

    fn initial_state() -> (s: RCState) {
        RCState { first: 0, second: 0, turn: 0, roll: None }
    }

    fn starting_team() -> (t: TwoPlayerTeam) {
        TwoPlayerTeam::One
    }
}

impl GwState<RandomCounting> for RCState {
    /// One step, or as many as the die shows; nothing while the die shows
    /// nothing or the position is out of play.
    open spec fn spec_actions(&self) -> Seq<MoveForwardAction> {
        match self.roll {
            Some(roll) if self.in_play() => if roll == 1 {
                seq![MoveForwardAction { steps: 1 }]
            } else {
                seq![MoveForwardAction { steps: 1 }, MoveForwardAction { steps: roll }]
            },
            _ => Seq::empty(),
        }
    }

    open spec fn spec_apply(&self, action: MoveForwardAction) -> Self {
        RCState {
            first: if self.turn % 2 == 0 {
                (self.first + action.steps) as u32
            } else {
                self.first
            },
            second: if self.turn % 2 == 0 {
                self.second
            } else {
                (self.second + action.steps) as u32
            },
            turn: if self.turn == usize::MAX {
                0
            } else {
                (self.turn + 1) as usize
            },
            roll: None,
        }
    }

    open spec fn spec_team_to_move(&self) -> TwoPlayerTeam {
        if self.turn % 2 == 0 {
            TwoPlayerTeam::One
        } else {
            TwoPlayerTeam::Two
        }
    }

    open spec fn spec_is_terminal(&self) -> bool {
        self.first >= GOAL || self.second >= GOAL
    }

    open spec fn spec_game_result(&self) -> Option<TwoPlayerGameResult<TwoPlayerTeam>> {
        if self.first >= GOAL {
            Some(TwoPlayerGameResult::Winner(TwoPlayerTeam::One))
        } else if self.second >= GOAL {
            Some(TwoPlayerGameResult::Winner(TwoPlayerTeam::Two))
        } else {
            None
        }
    }

    open spec fn spec_rank(&self) -> nat {
        ((if self.first >= GOAL {
            0
        } else {
            GOAL - self.first
        }) + (if self.second >= GOAL {
            0
        } else {
            GOAL - self.second
        })) as nat
    }

    fn actions(&self) -> (r: Vec<MoveForwardAction>) {
        let mut actions: Vec<MoveForwardAction> = Vec::new();
        if self.first >= GOAL + SIDES || self.second >= GOAL + SIDES {
            return actions;
        }
        match self.roll {
            Some(roll) => {
                if roll >= 1 && roll <= SIDES {
                    actions.push(MoveForwardAction { steps: 1 });
                    if roll != 1 {
                        actions.push(MoveForwardAction { steps: roll });
                    }
                }
            },
            None => {},
        }
        proof {
            assert(actions@ =~= self.spec_actions());
        }
        actions
    }

    fn is_legal(&self, action: &MoveForwardAction) -> (r: bool) {
        let legal = match self.roll {
            Some(roll) => self.first < GOAL + SIDES && self.second < GOAL + SIDES && roll >= 1
                && roll <= SIDES && (action.steps == 1 || action.steps == roll),
            None => false,
        };
        proof {
            let all = self.spec_actions();
            if legal {
                if action.steps == 1 {
                    assert(all[0] == *action);
                } else {
                    assert(all[1] == *action);
                }
            }
        }
        legal
    }

    fn team_to_move(&self) -> (r: TwoPlayerTeam) {
        TwoPlayerTeam::One.nth(self.turn)
    }

    fn apply_action(&self, action: &MoveForwardAction) -> (r: Self) {
        proof {
            let all = self.spec_actions();
            assert(all.len() > 0);
            assert(all[0].steps == 1);
        }
        let first = if self.turn % 2 == 0 {
            self.first + action.steps
        } else {
            self.first
        };
        let second = if self.turn % 2 == 0 {
            self.second
        } else {
            self.second + action.steps
        };
        RCState { first, second, turn: self.turn.wrapping_add(1), roll: None }
    }

    fn is_terminal(&self) -> (r: bool) {
        self.first >= GOAL || self.second >= GOAL
    }

    fn game_result(&self) -> (r: Option<TwoPlayerGameResult<TwoPlayerTeam>>) {
        if self.first >= GOAL {
            Some(TwoPlayerGameResult::Winner(TwoPlayerTeam::One))
        } else if self.second >= GOAL {
            Some(TwoPlayerGameResult::Winner(TwoPlayerTeam::Two))
        } else {
            None
        }
    }

    proof fn lemma_over_has_result(&self) {
    }

    proof fn lemma_clone_exact(a: Self, b: Self) {
    }

    proof fn lemma_teams_alternate(&self, action: MoveForwardAction) {
        assert(usize::MAX % 2 == 1) by {
            assert(usize::MAX == 0xffff_ffff || usize::MAX == 0xffff_ffff_ffff_ffff);
        }
    }

    proof fn lemma_rank_decreases(&self, action: MoveForwardAction) {
        let all = self.spec_actions();
        assert(all.len() > 0);
        assert(all[0].steps == 1);
    }
}

impl ProbabilisticState<RandomCounting> for RCState {
    open spec fn spec_is_random(&self) -> bool {
        self.roll is None
    }

    open spec fn spec_outcomes(&self) -> Seq<(RCState, u32)> {
        self.faces(SIDES as nat)
    }

    fn is_random_state(&self) -> (r: bool) {
        self.roll.is_none()
    }

    fn substates(&self) -> (r: Vec<(RCState, u32)>) {
        let mut outcomes: Vec<(RCState, u32)> = Vec::new();
        let mut roll: u32 = 1;
        while roll <= SIDES
            invariant
                1 <= roll <= SIDES + 1,
                outcomes@ == self.faces((roll - 1) as nat),
            decreases SIDES + 1 - roll,
        {
            outcomes.push(
                (RCState { first: self.first, second: self.second, turn: self.turn, roll: Some(roll) }, 1),
            );
            roll = roll + 1;
        }
        outcomes
    }
}

/// What a position of the race is worth to a team: 100 where its piece has
/// reached the goal, -100 where the other has, and else the lead of its
/// piece over the other.
pub open spec fn race_score(state: RCState, team: TwoPlayerTeam) -> i32 {
    let ahead: int = if state.first >= GOAL {
        100
    } else if state.second >= GOAL {
        -100
    } else {
        state.first - state.second
    };
    match team {
        TwoPlayerTeam::One => ahead as i32,
        TwoPlayerTeam::Two => (-ahead) as i32,
    }
}

/// Scores a position of the race by the lead of a piece.
pub struct RCEval;

impl Evaluator<RandomCounting> for RCEval {
    open spec fn scoring(&self) -> spec_fn(RCState, TwoPlayerTeam) -> i32 {
        |state: RCState, team: TwoPlayerTeam| race_score(state, team)
    }

    /// The evaluator never fails.
    open spec fn failures(&self) -> Set<Error> {
        Set::empty()
    }

    fn evaluate_for(&mut self, state: &RCState, team: &TwoPlayerTeam) -> (r: Result<i32, Error>) {
        let score: i32 = {
            let ahead: i32 = if state.first >= GOAL {
                100
            } else if state.second >= GOAL {
                -100
            } else {
                state.first as i32 - state.second as i32
            };
            match team {
                TwoPlayerTeam::One => ahead,
                TwoPlayerTeam::Two => -ahead,
            }
        };
        Ok(score)
    }
}

} // verus!
