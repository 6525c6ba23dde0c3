//! Cards: an immutable (suit, rank) pair with a derived numeric value and a
//! category (potion, weapon or monster) implied by the suit.

use vstd::prelude::*;

verus! {

/// The four suits. The suit decides what interacting with the card does:
/// Hearts heal, Diamonds are equipped, Clubs and Spades are fought.
#[derive(PartialEq, Debug, Clone, Copy)]
pub enum Suite {
    Hearts,
    Clubs,
    Spades,
    Diamonds,
}

/// The thirteen ranks of a suit.
#[derive(PartialEq, Debug, Clone, Copy)]
pub enum Rank {
    Ace,
    Two,
    Three,
    Four,
    Five,
    Six,
    Seven,
    Eight,
    Nine,
    Ten,
    Jack,
    Queen,
    King,
}

/// An immutable card value; copied freely, never mutated after creation.
#[derive(PartialEq, Debug, Clone, Copy)]
pub struct Card {
    pub suite: Suite,
    pub rank: Rank,
}

impl Card {
    /// The numeric value of a card: 2-10 at face value, Jack 11, Queen 12,
    /// King 13, Ace 14.
    pub open spec fn spec_value(&self) -> u8 {
        match self.rank {
            Rank::Ace => 14,
            Rank::Two => 2,
            Rank::Three => 3,
            Rank::Four => 4,
            Rank::Five => 5,
            Rank::Six => 6,
            Rank::Seven => 7,
            Rank::Eight => 8,
            Rank::Nine => 9,
            Rank::Ten => 10,
            Rank::Jack => 11,
            Rank::Queen => 12,
            Rank::King => 13,
        }
    }

    /// The numeric value of a card, for combat and healing arithmetic.
    #[verifier::when_used_as_spec(spec_value)]
    pub fn value(&self) -> (v: u8)
        ensures
            v == self.spec_value(),
            2 <= v <= 14,
    {
        match self.rank {
            Rank::Ace => 14,
            Rank::Two => 2,
            Rank::Three => 3,
            Rank::Four => 4,
            Rank::Five => 5,
            Rank::Six => 6,
            Rank::Seven => 7,
            Rank::Eight => 8,
            Rank::Nine => 9,
            Rank::Ten => 10,
            Rank::Jack => 11,
            Rank::Queen => 12,
            Rank::King => 13,
        }
    }

    /// Hearts are potions.
    pub open spec fn is_potion(&self) -> bool {
        self.suite == Suite::Hearts
    }

    /// Diamonds are weapons.
    pub open spec fn is_weapon(&self) -> bool {
        self.suite == Suite::Diamonds
    }

    /// Clubs and Spades are monsters.
    pub open spec fn is_monster(&self) -> bool {
        self.suite == Suite::Clubs || self.suite == Suite::Spades
    }
}

} // verus!
