//! The trusted boundary to the process randomness.

use vstd::prelude::*;

use crate::types::{views_of, SavedAlbum};

verus! {

/// Relies on rand's `SliceRandom::shuffle`: the slice is permuted in
/// place — the records after the call are a rearrangement of the
/// records before it. Nothing is promised of the resulting order.
/// The thread generator aborts only if the operating system's entropy
/// source fails at first seeding; no input can avoid or cause that.
#[verifier::external_body]
pub fn shuffle_albums(v: &mut Vec<SavedAlbum>)
    ensures
        final(v)@.len() == old(v)@.len(),
        final(v)@.to_multiset() == old(v)@.to_multiset(),
        views_of(final(v)@).to_multiset() == views_of(old(v)@).to_multiset(),
{
    rand::seq::SliceRandom::shuffle(v.as_mut_slice(), &mut rand::rng())
}

/// Relies on `rand::random`: a fresh draw from the process generator.
/// Nothing can be promised of a random value. The thread generator
/// aborts only if the operating system's entropy source fails at first
/// seeding; no input can avoid or cause that.
#[verifier::external_body]
pub fn random_u64() -> u64 {
    rand::random::<u64>()
}

} // verus!
