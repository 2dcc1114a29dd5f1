//! The randomness the enemy controller draws from, behind trusted wrappers:
//! a coin with a given ratio and a uniform draw below a bound. Nothing is
//! assumed of any single outcome beyond its range.

use rand::Rng;
use vstd::prelude::*;

verus! {

#[verifier::external_type_specification]
#[verifier::external_body]
pub struct ExThreadRng(rand::rngs::ThreadRng);

/// Relies on rand::rng: a handle to the thread-local generator.
#[verifier::external_body]
pub(crate) fn new_rng() -> rand::rngs::ThreadRng {
    rand::rng()
}

/// Relies on rand::Rng::random_ratio: true with probability
/// `numerator / denominator`; it panics only when the denominator is zero or
/// the numerator exceeds it. Of one outcome nothing can be promised.
#[verifier::external_body]
pub(crate) fn rng_ratio(rng: &mut rand::rngs::ThreadRng, numerator: u32, denominator: u32) -> bool
    requires
        0 < denominator,
        numerator <= denominator,
{
    rng.random_ratio(numerator, denominator)
}

/// Relies on rand::Rng::random_range on `0..bound`: a value below `bound`;
/// it panics only on an empty range.
#[verifier::external_body]
pub(crate) fn rng_below(rng: &mut rand::rngs::ThreadRng, bound: u32) -> (r: u32)
    requires
        0 < bound,
    ensures
        r < bound,
{
    rng.random_range(0..bound)
}

} // verus!
