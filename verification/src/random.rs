//! The one source of chance in the game: a uniformly drawn integer.

use vstd::prelude::*;

verus! {

/// Calls `rand::random_range(low..=high)`, which draws from the thread-local
/// generator. All that is claimed of the outcome is that it lies in the range.
#[verifier::external_body]
pub(crate) fn random_range_inclusive(low: usize, high: usize) -> (r: usize)
    requires
        low <= high,
    ensures
        low <= r <= high,
{
    rand::random_range(low..=high)
}

} // verus!
