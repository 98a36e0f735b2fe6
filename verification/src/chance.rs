//! The one source of randomness.

use rand::Rng;
use vstd::prelude::*;

verus! {

/// Draws a number from `low` to `high`, both included, with
/// `rand::Rng::gen_range` on the thread's generator. Of the outcome only the
/// bounds are known; an empty range, on which `gen_range` panics, is ruled
/// out.
#[verifier::external_body]
pub(crate) fn random_between(low: u64, high: u64) -> (r: u64)
    requires
        low <= high,
    ensures
        low <= r <= high,
{
    rand::thread_rng().gen_range(low..=high)
}

} // verus!
