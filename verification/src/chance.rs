//! The one place where chance enters the game.

use vstd::prelude::*;
use rand::Rng;

verus! {

/// Draws a position below `bound`.
///
/// This calls `gen_range` of the `rand` crate with the half-open range from
/// zero to `bound`, on the generator that `thread_rng` hands out. The
/// contract claims only what holds of every draw: the value lies in the range.
/// `gen_range` panics on an empty range, so `bound` must be positive. That
/// the draw is uniform and cannot be predicted is a promise of `rand` which
/// no contract here expresses; nor can a contract rule out that the operating
/// system withholds the entropy that seeds the generator, in which case
/// `rand` panics.
#[verifier::external_body]
pub(crate) fn random_below(bound: usize) -> (drawn: usize)
    requires
        bound > 0,
    ensures
        drawn < bound,
{
    rand::thread_rng().gen_range(0..bound)
}

} // verus!
