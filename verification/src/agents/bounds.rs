//! The lowest and the highest score.

use vstd::prelude::*;
use num_traits::Bounded;

verus! {

/// Asks `Bounded::min_value` for the lowest score, which for `i32` is
/// `i32::MIN`.
#[verifier::external_body]
pub(crate) fn lowest_score() -> (score: i32)
    ensures
        score == i32::MIN,
{
    <i32 as Bounded>::min_value()
}

/// Asks `Bounded::max_value` for the highest score, which for `i32` is
/// `i32::MAX`.
#[verifier::external_body]
pub(crate) fn highest_score() -> (score: i32)
    ensures
        score == i32::MAX,
{
    <i32 as Bounded>::max_value()
}

} // verus!
