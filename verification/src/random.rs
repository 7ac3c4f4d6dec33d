//! The source of chance.

use rand::distributions::{Distribution, Uniform};
use vstd::prelude::*;

verus! {

/// Draws a whole number from `low` up to, but not including, `high`.
///
/// Not proved but taken from `rand`: the body builds a distribution with
/// `Uniform::from(low..high)` and samples it once, by `Distribution::sample`,
/// with the generator that `rand::thread_rng` hands out. The contract claims
/// what holds of every draw and no more: the number lies in the range.
/// `Uniform::from` panics on an empty range, which the precondition rules
/// out. Nothing is claimed of how the draws are spread, and two draws from
/// the same range may differ.
#[verifier::external_body]
pub(crate) fn uniform_draw(low: u64, high: u64) -> (drawn: u64)
    requires
        low < high,
    ensures
        low <= drawn < high,
{
    Uniform::from(low..high).sample(&mut rand::thread_rng())
}

} // verus!
