use vstd::prelude::*;

verus! {

/// The direction in which a team drives the evaluation of a position.
#[derive(Debug, Copy, Clone, PartialEq, Eq, Hash, Structural)]
pub enum Polarity {
    /// The team is maximizing the evaluation.
    Positive,
    /// The team is minimizing the evaluation.
    Negative,
}

impl Polarity {
    /// The opposite direction.
    pub open spec fn spec_flip(self) -> Polarity {
        match self {
            Polarity::Positive => Polarity::Negative,
            Polarity::Negative => Polarity::Positive,
        }
    }

    /// `1` for `Positive`, `-1` for `Negative`.
    pub open spec fn spec_sign(self) -> int {
        match self {
            Polarity::Positive => 1,
            Polarity::Negative => -1,
        }
    }

    /// Returns the opposite polarity.
    pub fn flip(&self) -> (r: Polarity)
        ensures
            r == self.spec_flip(),
    {
        match self {
            Polarity::Positive => Polarity::Negative,
            Polarity::Negative => Polarity::Positive,
        }
    }

    /// Returns the sign of the polarity: `1` for `Positive`, `-1` for `Negative`.
    pub fn sign(&self) -> (r: i32)
        ensures
            r == self.spec_sign(),
    {
        match self {
            Polarity::Positive => 1,
            Polarity::Negative => -1,
        }
    }
}

/// One of the two sides of a game.
///
/// The two teams alternate, and they pull the evaluation in opposite
/// directions: a team is told from its opponent by its polarity.
pub trait GwTeam: Sized + Copy {
    /// The other team.
    spec fn spec_opponent(&self) -> Self;

    /// The direction in which this team drives the evaluation.
    spec fn spec_polarity(&self) -> Polarity;

    /// Returns the other team.
    fn opponent(&self) -> (r: Self)
        ensures
            r == self.spec_opponent(),
    ;

    /// Returns the direction in which this team drives the evaluation.
    fn polarity(&self) -> (r: Polarity)
        ensures
            r == self.spec_polarity(),
    ;

    /// Returns the team that moves `n` plies after this one: the team itself
    /// for an even `n`, its opponent for an odd one.
    fn nth(&self, n: usize) -> (r: Self)
        ensures
            r == (if n % 2 == 0 {
                *self
            } else {
                self.spec_opponent()
            }),
    {
        if n % 2 == 0 {
            *self
        } else {
            self.opponent()
        }
    }

    /// The opponent drives the evaluation the other way.
    proof fn lemma_opponent_flips(&self)
        ensures
            self.spec_opponent().spec_polarity() == self.spec_polarity().spec_flip(),
    ;

    /// Two teams of the same polarity are the same team.
    proof fn lemma_polarity_decides(a: Self, b: Self)
        requires
            a.spec_polarity() == b.spec_polarity(),
        ensures
            a == b,
    ;
}

/// The team that maximizes, given either of the two teams.
pub open spec fn maximizer<T: GwTeam>(team: T) -> T {
    if team.spec_polarity() == Polarity::Positive {
        team
    } else {
        team.spec_opponent()
    }
}

/// The opponent of the opponent is the team itself.
pub proof fn lemma_opponent_involution<T: GwTeam>(team: T)
    ensures
        team.spec_opponent().spec_opponent() == team,
        team.spec_opponent() != team,
{
    team.lemma_opponent_flips();
    team.spec_opponent().lemma_opponent_flips();
    T::lemma_polarity_decides(team.spec_opponent().spec_opponent(), team);
}

/// The maximizing team has positive polarity, whichever team one starts from.
pub proof fn lemma_maximizer_is_positive<T: GwTeam>(team: T)
    ensures
        maximizer(team).spec_polarity() == Polarity::Positive,
        maximizer(team.spec_opponent()) == maximizer(team),
{
    team.lemma_opponent_flips();
    team.spec_opponent().lemma_opponent_flips();
    lemma_opponent_involution(team);
    T::lemma_polarity_decides(maximizer(team.spec_opponent()), maximizer(team));
}

/// The two teams of a game, by the order in which they move.
#[derive(Debug, Clone, Copy, PartialEq, Eq, Hash, Structural)]
pub enum Team {
    One,
    Two,
}

impl Team {
    /// Returns the other team.
    pub fn opponent(&self) -> (r: Self)
        ensures
            r == self.spec_opponent(),
    {
        match self {
            Team::One => Team::Two,
            Team::Two => Team::One,
        }
    }

    /// Returns the team's name, `One` or `Two`.
    pub fn name(&self) -> (r: &'static str)
        ensures
            r@ == (match self {
                Team::One => "One"@,
                Team::Two => "Two"@,
            }),
    {
        match self {
            Team::One => "One",
            Team::Two => "Two",
        }
    }
}

impl GwTeam for Team {
    open spec fn spec_opponent(&self) -> Self {
        match self {
            Team::One => Team::Two,
            Team::Two => Team::One,
        }
    }

    open spec fn spec_polarity(&self) -> Polarity {
        match self {
            Team::One => Polarity::Positive,
            Team::Two => Polarity::Negative,
        }
    }

    fn opponent(&self) -> (r: Self) {
        match self {
            Team::One => Team::Two,
            Team::Two => Team::One,
        }
    }

    fn polarity(&self) -> (r: Polarity) {
        match self {
            Team::One => Polarity::Positive,
            Team::Two => Polarity::Negative,
        }
    }

    proof fn lemma_opponent_flips(&self) {
    }

    proof fn lemma_polarity_decides(a: Self, b: Self) {
    }
}

/// The two teams of a game in which the first to move maximizes.
#[derive(Debug, Clone, Copy, PartialEq, Eq, Hash, Structural)]
pub enum TwoPlayerTeam {
    One,
    Two,
}

impl GwTeam for TwoPlayerTeam {
    open spec fn spec_opponent(&self) -> Self {
        match self {
            TwoPlayerTeam::One => TwoPlayerTeam::Two,
            TwoPlayerTeam::Two => TwoPlayerTeam::One,
        }
    }

    open spec fn spec_polarity(&self) -> Polarity {
        match self {
            TwoPlayerTeam::One => Polarity::Positive,
            TwoPlayerTeam::Two => Polarity::Negative,
        }
    }

    fn opponent(&self) -> (r: Self) {
        match self {
            TwoPlayerTeam::One => TwoPlayerTeam::Two,
            TwoPlayerTeam::Two => TwoPlayerTeam::One,
        }
    }

    fn polarity(&self) -> (r: Polarity) {
        match self {
            TwoPlayerTeam::One => Polarity::Positive,
            TwoPlayerTeam::Two => Polarity::Negative,
        }
    }

    proof fn lemma_opponent_flips(&self) {
    }

    proof fn lemma_polarity_decides(a: Self, b: Self) {
    }
}

} // verus!
