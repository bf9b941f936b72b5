//! What holds between the searches.

use vstd::prelude::*;
use crate::agents::evaluator::symmetric;
use crate::agents::minimax::{
    child_value, lemma_minimax_is_score, minimax_fold, minimax_value, within_window,
};
use crate::agents::negamax::{
    lemma_playable_reply, negamax_fold, negamax_value, negated, playable, reply_value,
};
use crate::model::game::Game;
use crate::model::state::GwState;
use crate::model::team::{lemma_maximizer_is_positive, maximizer, GwTeam, Polarity};

verus! {

/// Pruning changes the cost of a search, not its outcome: whatever a search
/// returns inside the widest window is the minimax value of the unpruned
/// tree.
pub proof fn law_pruning_keeps_the_value<G: Game>(
    scoring: spec_fn(G::State, G::Team) -> i32,
    state: G::State,
    depth: nat,
    returned: i32,
) where G::State: GwState<G>
    requires
        within_window(
            returned as int,
            minimax_value::<G>(scoring, state, depth),
            i32::MIN as int,
            i32::MAX as int,
        ),
    ensures
        returned == minimax_value::<G>(scoring, state, depth),
{
    lemma_minimax_is_score::<G>(scoring, state, depth);
}

/// A symmetric scoring keeps every score within what can be negated.
pub proof fn lemma_symmetric_is_bounded<G: Game>(
    scoring: spec_fn(G::State, G::Team) -> i32,
    state: G::State,
    team: G::Team,
) where G::State: GwState<G>
    requires
        symmetric::<G>(scoring),
    ensures
        -i32::MAX <= scoring(state, team) <= i32::MAX,
        scoring(state, team.spec_opponent()) as int == -(scoring(state, team) as int),
{
    assert(scoring(state, team.spec_opponent()) as int == -(scoring(state, team) as int));
}

/// For a symmetric evaluator and in a game whose states are terminal or have
/// an action, negamax and minimax agree: the negamax value of a state, which
/// is its value for the team to move, is its minimax value where that team
/// maximizes and the negative of it where that team minimizes.
pub proof fn law_negamax_agrees_with_minimax<G: Game>(
    scoring: spec_fn(G::State, G::Team) -> i32,
    state: G::State,
    depth: nat,
) where G::State: GwState<G>
    requires
        symmetric::<G>(scoring),
        playable::<G>(state, depth),
    ensures
        negamax_value::<G>(scoring, state, depth) == state.spec_team_to_move().spec_polarity().spec_sign()
            * minimax_value::<G>(scoring, state, depth),
        -i32::MAX <= minimax_value::<G>(scoring, state, depth) <= i32::MAX,
    decreases depth, 1nat, 0nat,
{
    let mover = state.spec_team_to_move();
    if depth == 0 || state.spec_is_terminal() {
        lemma_symmetric_is_bounded::<G>(scoring, state, mover);
        lemma_symmetric_is_bounded::<G>(scoring, state, maximizer(mover));
        lemma_maximizer_is_positive(mover);
    } else {
        lemma_folds_agree::<G>(scoring, state, depth, state.spec_actions().len());
    }
}

/// The folds of negamax and of minimax over the first `count` actions agree,
/// as soon as there is an action to fold.
proof fn lemma_folds_agree<G: Game>(
    scoring: spec_fn(G::State, G::Team) -> i32,
    state: G::State,
    depth: nat,
    count: nat,
) where G::State: GwState<G>
    requires
        symmetric::<G>(scoring),
        depth > 0,
        !state.spec_is_terminal(),
        playable::<G>(state, depth),
        0 < count <= state.spec_actions().len(),
    ensures
        negamax_fold::<G>(scoring, state, depth, count)
            == state.spec_team_to_move().spec_polarity().spec_sign() * minimax_fold::<G>(
            scoring,
            state,
            depth,
            count,
            state.spec_team_to_move().spec_polarity(),
        ),
        -i32::MAX <= minimax_fold::<G>(
            scoring,
            state,
            depth,
            count,
            state.spec_team_to_move().spec_polarity(),
        ) <= i32::MAX,
    decreases depth, 0nat, count,
{
    let mover = state.spec_team_to_move();
    let polarity = mover.spec_polarity();
    let action = state.spec_actions()[count - 1];
    let next = state.spec_apply(action);
    assert(state.spec_actions().contains(action));
    lemma_playable_reply::<G>(state, depth, state.spec_actions().len(), count - 1);
    law_negamax_agrees_with_minimax::<G>(scoring, next, (depth - 1) as nat);
    state.lemma_teams_alternate(action);
    mover.lemma_opponent_flips();
    let below = minimax_value::<G>(scoring, next, (depth - 1) as nat);
    let reply = reply_value::<G>(scoring, state, depth, count - 1);
    assert(child_value::<G>(scoring, state, depth, count - 1) == below);
    assert(next.spec_team_to_move().spec_polarity() == polarity.spec_flip());
    if count > 1 {
        lemma_folds_agree::<G>(scoring, state, depth, (count - 1) as nat);
    }
    let nega_rest = negamax_fold::<G>(scoring, state, depth, (count - 1) as nat);
    let mini_rest = minimax_fold::<G>(scoring, state, depth, (count - 1) as nat, polarity);
    assert(negamax_fold::<G>(scoring, state, depth, count) == if reply > nega_rest {
        reply
    } else {
        nega_rest
    });
    match polarity {
        Polarity::Positive => {
            assert(negamax_value::<G>(scoring, next, (depth - 1) as nat) == -below);
            assert(reply == below);
            assert(minimax_fold::<G>(scoring, state, depth, count, polarity) == if below
                > mini_rest {
                below
            } else {
                mini_rest
            });
            if count == 1 {
                assert(nega_rest == -i32::MAX);
                assert(mini_rest == i32::MIN);
            } else {
                assert(nega_rest == mini_rest);
            }
        },
        Polarity::Negative => {
            assert(negamax_value::<G>(scoring, next, (depth - 1) as nat) == below);
            assert(reply == -below);
            assert(minimax_fold::<G>(scoring, state, depth, count, polarity) == if below
                < mini_rest {
                below
            } else {
                mini_rest
            });
            if count == 1 {
                assert(nega_rest == -i32::MAX);
                assert(mini_rest == i32::MAX);
            } else {
                assert(nega_rest == -mini_rest);
            }
        },
    }
}

} // verus!
