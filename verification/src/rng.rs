//! Trusted boundary to the random source.
//!
//! All randomness the sampler uses flows through the two functions here, so
//! that every decision taken on a random outcome lives in verified code that
//! holds for whatever the source returns.  The source itself is an explicit,
//! seedable generator supplied by the caller, never ambient global state.

use vstd::prelude::*;
use rand::Rng;
use rand::seq::SliceRandom;

verus! {

/// The seedable random generator the sampler draws from.
#[verifier::external_type_specification]
#[verifier::external_body]
pub struct ExStdRng(rand::rngs::StdRng);

/// Relies on rand's `Rng::gen_ratio`: true with probability
/// `numerator / denominator`; certain at the two ends, and a panic when the
/// ratio is no probability, which the precondition rules out.
#[verifier::external_body]
pub(crate) fn ratio_coin(rng: &mut rand::rngs::StdRng, numerator: u32, denominator: u32) -> (included:
    bool)
    requires
        1 <= denominator,
        numerator <= denominator,
    ensures
        numerator == 0 ==> !included,
        numerator == denominator ==> included,
{
    rng.gen_ratio(numerator, denominator)
}

/// Relies on rand's `SliceRandom::shuffle`: the elements are reordered in
/// place, uniformly at random; the multiset of elements is unchanged.
#[verifier::external_body]
pub(crate) fn shuffle_indices(rng: &mut rand::rngs::StdRng, items: &mut Vec<usize>)
    ensures
        final(items)@.to_multiset() == old(items)@.to_multiset(),
{
    items.shuffle(rng)
}

} // verus!
