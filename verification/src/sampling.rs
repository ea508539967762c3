//! Trusted boundary to the `rand` crate. Every random draw the library makes
//! goes through one of these wrappers; each states only what holds of every
//! possible outcome.

use vstd::prelude::*;

use crate::mutators::DefinedMutators;

verus! {

/// Relies on rand's `Rng::random_range` over `0..n`: the sampled value lies
/// in the (non-empty) range.
#[verifier::external_body]
pub(crate) fn random_below(n: usize) -> (r: usize)
    requires
        n > 0,
    ensures
        r < n,
{
    rand::Rng::random_range(&mut rand::rng(), 0..n)
}

/// Relies on rand's `Rng::random_ratio`: true with probability `num/denom`,
/// guaranteed false when `num == 0` and guaranteed true when `num == denom`;
/// panics unless `0 < denom` and `num <= denom`.
#[verifier::external_body]
pub(crate) fn random_ratio(num: u32, denom: u32) -> (r: bool)
    requires
        0 < denom,
        num <= denom,
    ensures
        num == 0 ==> !r,
        num == denom ==> r,
{
    rand::Rng::random_ratio(&mut rand::rng(), num, denom)
}

/// Relies on rand's `SliceRandom::shuffle`: permutes the slice in place, so
/// the multiset of elements (and hence the length) is unchanged.
#[verifier::external_body]
pub(crate) fn shuffle_mutators(v: &mut Vec<DefinedMutators>)
    ensures
        final(v)@.to_multiset() == old(v)@.to_multiset(),
        final(v)@.len() == old(v)@.len(),
{
    rand::seq::SliceRandom::shuffle(v.as_mut_slice(), &mut rand::rng())
}

} // verus!
