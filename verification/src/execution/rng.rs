//! The random source behind the simulated broker. Every draw is an outside
//! call; the broker's own logic is verified for every value a draw returns.

use vstd::prelude::*;

use rand::rngs::StdRng;
use rand::{Rng, SeedableRng};

verus! {

#[verifier::external_type_specification]
#[verifier::external_body]
pub struct ExStdRng(rand::rngs::StdRng);

/// `StdRng::seed_from_u64`: a generator fully determined by `seed`.
/// Nothing is stated of its internal state.
#[verifier::external_body]
pub(crate) fn rng_from_seed(seed: u64) -> StdRng {
    StdRng::seed_from_u64(seed)
}

/// `Rng::random_ratio`: true with probability `numerator / denominator`.
/// Its documentation guarantees `false` when `numerator == 0` and `true`
/// when `numerator == denominator`; it panics when `denominator == 0` or
/// `numerator > denominator`, which `requires` rules out, so the call does not unwind.
#[verifier::external_body]
pub(crate) fn random_ratio(rng: &mut StdRng, numerator: u32, denominator: u32) -> (r: bool)
    requires
        0 < denominator,
        numerator <= denominator,
    ensures
        numerator == 0 ==> !r,
        numerator == denominator ==> r,
    no_unwind
{
    rng.random_ratio(numerator, denominator)
}

/// `Rng::random_range` on `low..high`: a value in the half-open range. It
/// panics on an empty range, which `requires` rules out.
#[verifier::external_body]
pub(crate) fn random_range_u32(rng: &mut StdRng, low: u32, high: u32) -> (r: u32)
    requires
        low < high,
    ensures
        low <= r < high,
    no_unwind
{
    rng.random_range(low..high)
}

} // verus!
