//! Random draws for serving the ball.

use rand::Rng;
use vstd::prelude::*;

verus! {

/// Relies on `rand::thread_rng` and `rand::Rng::gen_range` (rand 0.7): a value
/// drawn uniformly from `[low, high)`; it panics unless `low < high`.
#[verifier::external_body]
pub(crate) fn random_below(low: i64, high: i64) -> (r: i64)
    requires
        low < high,
    ensures
        low <= r < high,
{
    rand::thread_rng().gen_range(low, high)
}

} // verus!
