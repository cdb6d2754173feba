use rand::Rng;
use vstd::prelude::*;

verus! {

/// A number drawn by `rand::rng().random_range(0..bound)`. The generator
/// samples the half-open range, so the number is below `bound`; which one it
/// is differs from call to call. An empty range would make it panic, hence
/// the `requires`.
#[verifier::external_body]
pub(crate) fn random_below(bound: usize) -> (n: usize)
    requires
        bound > 0,
    ensures
        n < bound,
{
    rand::rng().random_range(0..bound)
}

} // verus!
