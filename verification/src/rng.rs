//! Random draws for spawning and lightning.
//!
//! The weather engine owns a seedable generator so that every random choice
//! is reproducible: the same seed gives the same animation. Nothing beyond
//! the stated range of each draw is assumed of the values.

use vstd::prelude::*;

verus! {

/// fastrand's small-state pseudo-random generator; opaque here, held by the
/// weather engine so that all draws come from one seedable source.
#[verifier::external_type_specification]
#[verifier::external_body]
pub struct ExRng(fastrand::Rng);

/// Relies on fastrand::Rng::with_seed: builds a generator whose draws are a
/// deterministic function of the seed.
#[verifier::external_body]
pub(crate) fn rng_from_seed(seed: u64) -> fastrand::Rng {
    fastrand::Rng::with_seed(seed)
}

/// Relies on fastrand::Rng::bool: one random boolean draw.
#[verifier::external_body]
pub(crate) fn rng_bool(rng: &mut fastrand::Rng) -> bool {
    rng.bool()
}

/// Relies on fastrand::Rng::u32 over the range `0..n`, which returns a value
/// below `n` and panics only when the range is empty.
#[verifier::external_body]
pub(crate) fn rng_below(rng: &mut fastrand::Rng, n: u32) -> (r: u32)
    requires
        n >= 1,
    ensures
        r < n,
{
    rng.u32(0..n)
}

} // verus!
