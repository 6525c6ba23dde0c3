//! The one place where the engine touches randomness: shuffling a vector of
//! cards in place with an injected generator.

use vstd::prelude::*;
use rand::seq::SliceRandom;
use crate::card::Card;

verus! {

#[verifier::external_type_specification]
#[verifier::external_body]
pub struct ExThreadRng(rand::rngs::ThreadRng);

/// Relies on rand's `SliceRandom::shuffle`: it permutes the slice in place
/// (uniformly at random), so the multiset of cards is unchanged. Nothing is
/// assumed about the resulting order.
#[verifier::external_body]
pub(crate) fn shuffle_cards(cards: &mut Vec<Card>, rng: &mut rand::rngs::ThreadRng)
    ensures
        final(cards)@.to_multiset() == old(cards)@.to_multiset(),
        final(cards)@.len() == old(cards)@.len(),
{
    cards.as_mut_slice().shuffle(rng);
}

} // verus!
