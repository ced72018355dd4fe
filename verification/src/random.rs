//! The randomness the apple spawner draws on: an explicit, seedable
//! generator of the `rand` crate, behind trusted wrappers.

use vstd::prelude::*;

use rand::Rng;
use rand::rngs::StdRng;

verus! {

/// Relies on `rand::rngs::StdRng`: the seedable standard generator, declared
/// opaquely so the simulation can take its random source as an explicit
/// dependency. A host seeds one (`rand::SeedableRng`) and hands it in.
#[verifier::external_type_specification]
#[verifier::external_body]
pub struct ExStdRng(StdRng);

/// Relies on `rand::Rng::gen_ratio`: true with probability
/// `numerator / denominator`; it panics when the denominator is zero or
/// smaller than the numerator, so those inputs are excluded here. Nothing is
/// promised of the outcome.
#[verifier::external_body]
pub(crate) fn random_ratio(rng: &mut StdRng, numerator: u32, denominator: u32) -> bool
    requires
        0 < denominator,
        numerator <= denominator,
{
    rng.gen_ratio(numerator, denominator)
}

/// Relies on `rand::Rng::gen_range`: a uniformly random number drawn from
/// `0..bound`; it panics on an empty range, so a zero bound is excluded
/// here. Only the bound is promised of the outcome.
#[verifier::external_body]
pub(crate) fn random_below(rng: &mut StdRng, bound: usize) -> (r: usize)
    requires
        0 < bound,
    ensures
        r < bound,
{
    rng.gen_range(0..bound)
}

} // verus!
