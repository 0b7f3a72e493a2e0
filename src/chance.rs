//! The random source of the game: a seedable generator of `rand`, handed in
//! by seed or seeded from the system, and the two draws the game makes from it
//! (a number below a bound, a permutation).
use rand::rngs::StdRng;
use rand::seq::SliceRandom;
use rand::{Rng, SeedableRng};
use vstd::prelude::*;

use crate::card::Card;

verus! {

#[verifier::external_type_specification]
#[verifier::external_body]
pub struct ExStdRng(rand::rngs::StdRng);

/// Relies on rand::SeedableRng::seed_from_u64: a generator whose whole output
/// is fixed by `seed`; nothing is promised of what that output is.
#[verifier::external_body]
pub(crate) fn seeded_rng(seed: u64) -> StdRng {
    StdRng::seed_from_u64(seed)
}

/// Relies on rand::SeedableRng::from_entropy: a generator seeded from the
/// operating system. It panics only where the system's random source fails.
#[verifier::external_body]
pub(crate) fn system_rng() -> StdRng {
    StdRng::from_entropy()
}

/// Relies on rand::Rng::gen_range: a value in `[0, bound)`; it panics only
/// when the range is empty, which `requires` rules out.
#[verifier::external_body]
pub(crate) fn roll(rng: &mut StdRng, bound: u32) -> (r: u32)
    requires
        0 < bound,
    ensures
        r < bound,
{
    rng.gen_range(0u32, bound)
}

/// Relies on rand::seq::SliceRandom::shuffle, which permutes the slice in
/// place (a Fisher-Yates pass of swaps): the same cards stay, in some order.
#[verifier::external_body]
pub(crate) fn shuffle_cards(rng: &mut StdRng, cards: &mut Vec<Card>)
    ensures
        final(cards)@.len() == old(cards)@.len(),
        final(cards)@.to_multiset() == old(cards)@.to_multiset(),
{
    cards.shuffle(rng);
}

} // verus!
