use vstd::prelude::*;
use crate::model::game::Game;
use crate::model::team::GwTeam;

verus! {

/// A position of a game, with the rules that govern it.
///
/// The rules are given twice: as mathematical functions, which contracts
/// speak of, and as the executable methods that compute them.
pub trait GwState<G: Game>: Sized + Clone {
    /// The actions that may be taken in this position, in the order in which
    /// they are generated.
    spec fn spec_actions(&self) -> Seq<G::Action>;

    /// The position that an action leads to.
    spec fn spec_apply(&self, action: G::Action) -> Self;

    /// The team whose turn it is.
    spec fn spec_team_to_move(&self) -> G::Team;

    /// Whether the game is over in this position.
    spec fn spec_is_terminal(&self) -> bool;

    /// How the game ended, if it is over.
    spec fn spec_game_result(&self) -> Option<G::GameResult>;

    /// A bound on the number of plies that can still be played from here.
    spec fn spec_rank(&self) -> nat;

    /// Returns the actions that may be taken in this position.
    fn actions(&self) -> (r: Vec<G::Action>)
        ensures
            r@ == self.spec_actions(),
    ;

    /// Returns the number of actions that may be taken in this position.
    fn count_actions(&self) -> (r: usize)
        ensures
            r == self.spec_actions().len(),
    {
        self.actions().len()
    }

    /// Returns `true` if `action` is one of the actions of this position.
    fn is_legal(&self, action: &G::Action) -> (r: bool)
        ensures
            r == self.spec_actions().contains(*action),
    ;

    /// Returns the team whose turn it is.
    fn team_to_move(&self) -> (r: G::Team)
        ensures
            r == self.spec_team_to_move(),
    ;

    /// Returns the position that `action` leads to. The position itself is
    /// left as it is.
    fn apply_action(&self, action: &G::Action) -> (r: Self)
        requires
            self.spec_actions().contains(*action),
        ensures
            r == self.spec_apply(*action),
    ;

    /// Returns `true` if the game is over in this position.
    fn is_terminal(&self) -> (r: bool)
        ensures
            r == self.spec_is_terminal(),
    ;

    /// Returns how the game ended, or `None` while it is not over.
    fn game_result(&self) -> (r: Option<G::GameResult>)
        ensures
            r == self.spec_game_result(),
    ;

    /// The game is over exactly where it has a result.
    proof fn lemma_over_has_result(&self)
        ensures
            self.spec_is_terminal() == (self.spec_game_result() is Some),
    ;

    /// A clone of a position is that position.
    proof fn lemma_clone_exact(a: Self, b: Self)
        requires
            cloned(a, b),
        ensures
            a == b,
    ;

    /// The two teams take turns.
    proof fn lemma_teams_alternate(&self, action: G::Action)
        requires
            !self.spec_is_terminal(),
            self.spec_actions().contains(action),
        ensures
            self.spec_apply(action).spec_team_to_move() == self.spec_team_to_move().spec_opponent(),
    ;

    /// Every move brings the end of the game closer.
    proof fn lemma_rank_decreases(&self, action: G::Action)
        requires
            !self.spec_is_terminal(),
            self.spec_actions().contains(action),
        ensures
            self.spec_apply(action).spec_rank() < self.spec_rank(),
    ;
}

/// The positions that follow `state`, one per action and in the order of the
/// actions. A terminal position has none.
pub open spec fn successors<G: Game>(state: G::State) -> Seq<G::State> where G::State: GwState<G> {
    if state.spec_is_terminal() {
        Seq::empty()
    } else {
        Seq::new(
            state.spec_actions().len(),
            |i: int| state.spec_apply(state.spec_actions()[i]),
        )
    }
}

/// Walks the positions that follow a position, in the order of `successors`.
pub struct SubStateIter<G: Game> {
    actions: Vec<G::Action>,
    next: usize,
    state: G::State,
}

impl<G: Game> SubStateIter<G> where G::State: GwState<G> {
    /// The position whose successors are walked.
    pub closed spec fn origin(&self) -> G::State {
        self.state
    }

    /// The number of successors handed out so far.
    pub closed spec fn position(&self) -> nat {
        self.next as nat
    }

    /// The walk has handed out no more successors than there are.
    pub closed spec fn wf(&self) -> bool {
        &&& self.next <= self.actions.len()
        &&& self.actions.len() == successors::<G>(self.state).len()
        &&& !self.state.spec_is_terminal() ==> self.actions@ == self.state.spec_actions()
    }

    /// Starts a walk over the successors of `state`.
    pub fn new(state: G::State) -> (it: Self)
        ensures
            it.wf(),
            it.origin() == state,
            it.position() == 0,
    {
        let actions = if state.is_terminal() {
            Vec::new()
        } else {
            state.actions()
        };
        SubStateIter { actions, next: 0, state }
    }

    /// Hands out the next successor, or `None` when all have been handed out.
    pub fn next(&mut self) -> (r: Option<G::State>)
        requires
            old(self).wf(),
        ensures
            final(self).wf(),
            final(self).origin() == old(self).origin(),
            old(self).position() < successors::<G>(old(self).origin()).len() ==> {
                &&& r == Some(successors::<G>(old(self).origin())[old(self).position() as int])
                &&& final(self).position() == old(self).position() + 1
            },
            old(self).position() >= successors::<G>(old(self).origin()).len() ==> {
                &&& r is None
                &&& final(self).position() == old(self).position()
            },
    {
        if self.next < self.actions.len() {
            let child = self.state.apply_action(&self.actions[self.next]);
            self.next = self.next + 1;
            Some(child)
        } else {
            None
        }
    }
}

} // verus!
