//! The injected random source and the two random draws that the simulation
//! makes: shuffling a list of movement offsets and picking a palette colour.

use rand::rngs::StdRng;
use rand::seq::{IndexedRandom, SliceRandom};
use rand::SeedableRng;
use vstd::prelude::*;

use crate::cell::{GridPos, Rgba};

verus! {

#[verifier::external_type_specification]
#[verifier::external_body]
pub struct ExStdRng(StdRng);

/// Relies on `rand::SeedableRng::seed_from_u64` for `StdRng`: builds a
/// generator from a seed. Nothing is promised of its output.
#[verifier::external_body]
pub(crate) fn seeded_rng(seed: u64) -> (r: StdRng) {
    StdRng::seed_from_u64(seed)
}

/// Relies on `rand::seq::SliceRandom::shuffle`: it permutes the slice in
/// place, so the elements and their multiplicities are kept.
#[verifier::external_body]
pub(crate) fn shuffle_offsets(v: &mut Vec<GridPos>, rng: &mut StdRng)
    ensures
        final(v)@.len() == old(v)@.len(),
        final(v)@.to_multiset() == old(v)@.to_multiset(),
{
    v.as_mut_slice().shuffle(rng)
}

/// Relies on `rand::seq::IndexedRandom::choose`: `None` exactly for an empty
/// slice, and otherwise one of its elements.
#[verifier::external_body]
pub(crate) fn choose_color(palette: &Vec<Rgba>, rng: &mut StdRng) -> (r: Option<Rgba>)
    ensures
        r.is_some() <==> palette@.len() > 0,
        r matches Some(c) ==> palette@.contains(c),
{
    palette.as_slice().choose(rng).copied()
}

} // verus!
