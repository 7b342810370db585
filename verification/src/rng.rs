//! Trusted boundary around the random source. The library threads one
//! `rand::rngs::StdRng` handle explicitly through every draw, so runs are
//! reproducible when the caller seeds it.
use vstd::prelude::*;

verus! {

#[verifier::external_type_specification]
#[verifier::external_body]
pub struct ExStdRng(rand::rngs::StdRng);

/// Relies on rand::Rng::gen_range over the range `0..bound`: the result is
/// drawn uniformly from that range. The range is non-empty, so the call does
/// not panic, and every result is below `bound`. Nothing more can be said of
/// a random draw.
#[verifier::external_body]
pub(crate) fn rand_below(rng: &mut rand::rngs::StdRng, bound: usize) -> (r: usize)
    requires
        bound >= 1,
    ensures
        r < bound,
{
    rand::Rng::gen_range(rng, 0..bound)
}

/// Relies on rand::seq::SliceRandom::shuffle: it permutes the slice in place
/// (its body only swaps elements), so the length and the multiset of
/// elements are unchanged. Which permutation comes out is random, so no more
/// is stated.
#[verifier::external_body]
pub(crate) fn shuffle_strings(v: &mut Vec<String>, rng: &mut rand::rngs::StdRng)
    ensures
        final(v)@.len() == old(v)@.len(),
        final(v)@.to_multiset() == old(v)@.to_multiset(),
{
    rand::seq::SliceRandom::shuffle(v.as_mut_slice(), rng)
}

} // verus!
