use vstd::prelude::*;

use crate::machine::sum_u64;

verus! {

/// Relies on rand's `Rng::gen_range` on the thread-local generator: for a
/// non-empty half-open range `0..n` it returns a uniformly distributed value
/// inside the range (it panics only on an empty range, which the precondition
/// rules out).
#[verifier::external_body]
pub(crate) fn random_below(n: usize) -> (r: usize)
    requires
        n > 0,
    ensures
        r < n,
{
    rand::Rng::gen_range(&mut rand::thread_rng(), 0..n)
}

/// Relies on rand's `WeightedIndex`: for `u64` weights, construction fails
/// only on an empty list, an all-zero total, or an overflowing total (all
/// ruled out by the precondition), and sampling returns an index with
/// probability proportional to its weight, so an index whose weight is zero
/// is never returned.
#[verifier::external_body]
pub(crate) fn sample_weighted(weights: &Vec<u64>) -> (i: usize)
    requires
        weights@.len() > 0,
        exists|j: int| 0 <= j < weights@.len() && weights@[j] > 0,
        sum_u64(weights@) <= u64::MAX,
    ensures
        i < weights@.len(),
        weights@[i as int] > 0,
{
    let dist = rand::distributions::WeightedIndex::new(weights).unwrap();
    rand::distributions::Distribution::sample(&dist, &mut rand::thread_rng())
}

} // verus!
