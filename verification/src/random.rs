//! The one source of chance in the game.

use vstd::prelude::*;
use rand::Rng;

verus! {

/// Draws an index below `bound` by calling `rand::Rng::random_range` with the
/// range `0..bound` on the generator that `rand::rng` hands out for the
/// current thread.
///
/// Trusted, not proved: the range is not empty, so the call does not reject
/// it, and what it returns lies in the range. Which index comes back is left
/// open. The generator seeds itself from the operating system, on its first
/// use in a thread and again after every stretch of output, and panics if the
/// system hands it no entropy.
#[verifier::external_body]
pub(crate) fn random_index(bound: i32) -> (r: i32)
    requires
        0 < bound,
    ensures
        0 <= r < bound,
{
    rand::rng().random_range(0..bound)
}

} // verus!
