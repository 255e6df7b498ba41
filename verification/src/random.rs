//! The random source.
//!
//! Random numbers come from the `rand` crate's generator for the current
//! thread. Nothing can be proved of which number comes back, only of the
//! range that it lies in, so every caller is verified for all numbers of that
//! range.

use rand::distr::{Distribution, Uniform};
use rand::Rng;
use vstd::prelude::*;

verus! {

/// Draws one value from `rand::distr::Uniform::new(low, high)` with
/// `rand::rng()`. The distribution covers the half-open range from `low` to
/// `high`, so the value is at least `low` and below `high`. An empty range
/// has no distribution, and is left out.
#[verifier::external_body]
pub(crate) fn sample_uniform(low: usize, high: usize) -> (sample: usize)
    requires
        low < high,
    ensures
        low <= sample,
        (sample < high),
{
    Uniform::<usize>::new(low, high).unwrap().sample(&mut rand::rng())
}

/// Calls `Rng::random_range(0..bound)` on `rand::rng()`: some value below
/// `bound`. The crate panics on an empty range, which is left out.
#[verifier::external_body]
pub(crate) fn random_below(bound: usize) -> (index: usize)
    requires
        bound > 0,
    ensures
        (index < bound),
{
    rand::rng().random_range(0..bound)
}

} // verus!
