//! The dungeon deck: an ordered pile of cards drawn from the top, with
//! avoided rooms returned to the bottom.
//!
//! The view of a pile is the sequence of its cards from bottom to top, so the
//! draw end is the end of the sequence.

use vstd::prelude::*;
use crate::card::Card;

verus! {

/// An ordered pile of cards. No pile operation creates or destroys a card:
/// each contract below accounts for every card moved.
#[derive(PartialEq, Debug)]
pub struct Pile(Vec<Card>);

impl View for Pile {
    type V = Seq<Card>;

    closed spec fn view(&self) -> Seq<Card> {
        self.0@
    }
}

impl Pile {
    /// Builds a pile from a vector of cards; the last card of the vector
    /// becomes the top of the pile.
    pub fn from(cards: Vec<Card>) -> (p: Pile)
        ensures
            p@ == cards@,
    {
        Pile(cards)
    }

    /// Removes and returns the card at the draw end, or `None` when the pile
    /// is exhausted.
    pub fn pop_top_card(&mut self) -> (c: Option<Card>)
        ensures
            old(self)@.len() == 0 ==> c is None && final(self)@ == old(self)@,
            old(self)@.len() > 0 ==> c == Some(old(self)@.last())
                && final(self)@ == old(self)@.drop_last(),
    {
        self.0.pop()
    }

    /// Appends the given cards at the bottom of the pile, one after the
    /// other, so that they will later be drawn in the given order.
    pub fn add_to_bottom(&mut self, cards: Vec<Card>)
        ensures
            final(self)@ == cards@.reverse() + old(self)@,
    {
        let mut idx: usize = 0;
        while idx < cards.len()
            invariant
                idx <= cards@.len(),
                self@ == cards@.subrange(0, idx as int).reverse() + old(self)@,
            decreases cards@.len() - idx,
        {
            let card = cards[idx];
            self.0.insert(0, card);
            idx = idx + 1;
            proof {
                assert(cards@.subrange(0, idx as int).reverse() =~= seq![cards@[idx - 1]]
                    + cards@.subrange(0, idx - 1).reverse());
            }
        }
        proof {
            assert(cards@.subrange(0, cards@.len() as int) =~= cards@);
        }
    }

    /// The number of cards left in the pile.
    pub fn count_cards(&self) -> (n: u8)
        requires
            self@.len() <= u8::MAX,
        ensures
            n == self@.len(),
    {
        self.0.len() as u8
    }

    /// Whether the pile is exhausted.
    pub fn is_empty(&self) -> (r: bool)
        ensures
            r <==> self@.len() == 0,
    {
        self.0.is_empty()
    }

    /// Puts the cards of the pile into a uniformly random order. The multiset
    /// of cards is unchanged.
    pub fn shuffle(&mut self, rng: &mut rand::rngs::ThreadRng)
        ensures
            final(self)@.to_multiset() == old(self)@.to_multiset(),
            final(self)@.len() == old(self)@.len(),
    {
        crate::shuffling::shuffle_cards(&mut self.0, rng);
    }
}

} // verus!
