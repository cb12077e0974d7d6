//! Random draws from the thread-local generator of `fastrand`.
use vstd::prelude::*;

verus! {

/// Draws from `fastrand::u32(0..bound)`, the thread-local generator's
/// uniform integer in `0..bound`. Trusted: the draw lies in the range
/// (`fastrand` reduces a 32-bit draw into `0..bound`); which value comes
/// back depends on the generator's state and is not stated. `fastrand`
/// panics on an empty range, so `bound` must be positive.
#[verifier::external_body]
pub(crate) fn random_u32_below(bound: u32) -> (r: u32)
    requires
        bound > 0,
    ensures
        r < bound,
{
    fastrand::u32(0..bound)
}

} // verus!
