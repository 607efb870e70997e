//! The random source that the generating operators draw from.
//!
//! Every operator takes the generator as an argument, so that a caller can
//! seed it and repeat a run.

use rand::seq::SliceRandom;
use rand::Rng;
use vstd::prelude::*;

verus! {

#[verifier::external_type_specification]
#[verifier::external_body]
pub struct ExStdRng(rand::rngs::StdRng);

/// Relies on rand's `Rng::gen_range`: a value drawn from `0..bound`.
#[verifier::external_body]
pub(crate) fn random_below(rng: &mut rand::rngs::StdRng, bound: u128) -> (r: u128)
    requires
        bound > 0,
    ensures
        r < bound,
{
    rng.gen_range(0..bound)
}

/// Relies on rand's `Rng::gen_ratio`: true with probability
/// `numerator / denominator`, which by its documentation is never when the
/// numerator is 0 and always when it equals the denominator.
#[verifier::external_body]
pub(crate) fn random_ratio(rng: &mut rand::rngs::StdRng, numerator: u32, denominator: u32) -> (r: bool)
    requires
        0 < denominator,
        numerator <= denominator,
    ensures
        numerator == 0 ==> !r,
        numerator == denominator ==> r,
{
    rng.gen_ratio(numerator, denominator)
}

/// Relies on rand's `SliceRandom::shuffle`: the same items in a random order.
#[verifier::external_body]
pub(crate) fn shuffle<T>(rng: &mut rand::rngs::StdRng, v: &mut Vec<T>)
    ensures
        final(v)@.to_multiset() == old(v)@.to_multiset(),
{
    v.shuffle(rng)
}

} // verus!
