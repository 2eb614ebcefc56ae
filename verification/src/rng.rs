use vstd::prelude::*;

use rand::rngs::StdRng;
use rand::seq::SliceRandom;
use rand::RngExt;

verus! {

/// The seeded random number generator of the game (`rand::rngs::StdRng`); its state is opaque.
#[verifier::external_type_specification]
#[verifier::external_body]
pub struct ExStdRng(StdRng);

/// Shuffles `v` with `rand::seq::SliceRandom::shuffle`. Its documentation promises a permutation
/// of the elements (picked uniformly), so the contract states that the multiset of elements is
/// unchanged; which permutation comes out depends on the generator's state and is not stated.
#[verifier::external_body]
pub(crate) fn shuffle<T>(v: &mut Vec<T>, rng: &mut StdRng)
    ensures
        final(v)@.to_multiset() == old(v)@.to_multiset(),
{
    v.as_mut_slice().shuffle(rng);
}

/// Draws an integer from `low..=high` with `rand::RngExt::random_range`, which panics on an
/// empty range and otherwise returns a value of the range; which one depends on the
/// generator's state and is not stated.
#[verifier::external_body]
pub(crate) fn random_range_inclusive(rng: &mut StdRng, low: i32, high: i32) -> (r: i32)
    requires
        low <= high,
    ensures
        low <= r <= high,
{
    rng.random_range(low..=high)
}

/// Draws `true` with probability `numerator / denominator` with `rand::RngExt::random_ratio`.
/// Its source panics unless `0 < denominator` and `numerator <= denominator`, always returns
/// `true` when the two are equal, and returns `true` only when a drawn `u64` is below
/// `numerator / denominator * 2^64`, which never happens for a zero numerator. Otherwise the
/// outcome depends on the generator's state and is not stated.
#[verifier::external_body]
pub(crate) fn random_ratio(rng: &mut StdRng, numerator: u32, denominator: u32) -> (r: bool)
    requires
        0 < denominator,
        numerator <= denominator,
    ensures
        numerator == denominator ==> r,
        numerator == 0 ==> !r,
{
    rng.random_ratio(numerator, denominator)
}

} // verus!
