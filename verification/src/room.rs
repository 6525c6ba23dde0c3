//! The room: exactly four slots, each holding at most one card, presented to
//! the player for the current decision.
//!
//! The view of a room is its sequence of four optional slots, in slot order.

use vstd::prelude::*;
use crate::card::Card;
use crate::pile::Pile;

verus! {

/// The four empty slots.
pub open spec fn empty_slots() -> Seq<Option<Card>> {
    seq![None, None, None, None]
}

/// 1 when the slot holds a card, 0 when it is empty.
pub open spec fn slot_filled(s: Seq<Option<Card>>, i: int) -> int {
    if s[i] is Some {
        1
    } else {
        0
    }
}

/// How many of the four slots hold a card.
pub open spec fn occupied_count(s: Seq<Option<Card>>) -> int
    recommends
        s.len() == 4,
{
    slot_filled(s, 0) + slot_filled(s, 1) + slot_filled(s, 2) + slot_filled(s, 3)
}

/// The cards present in the slots, in slot order.
pub open spec fn cards_of(s: Seq<Option<Card>>) -> Seq<Card>
    recommends
        s.len() == 4,
{
    slot_cards(s[0]) + slot_cards(s[1]) + slot_cards(s[2]) + slot_cards(s[3])
}

/// The card of one slot as a sequence: one card, or nothing.
pub open spec fn slot_cards(o: Option<Card>) -> Seq<Card> {
    match o {
        Some(c) => seq![c],
        None => Seq::empty(),
    }
}

/// Filling one slot: an empty slot takes the top card of the dungeon, if any;
/// an occupied slot, or an exhausted dungeon, leaves both unchanged.
pub open spec fn fill_slot(room: Seq<Option<Card>>, dungeon: Seq<Card>, i: int) -> (
    Seq<Option<Card>>,
    Seq<Card>,
)
    recommends
        0 <= i < room.len(),
{
    if room[i] is None && dungeon.len() > 0 {
        (room.update(i, Some(dungeon.last())), dungeon.drop_last())
    } else {
        (room, dungeon)
    }
}

/// Filling the room: each empty slot, in slot order, draws one card from the
/// top of the dungeon; a partial fill is valid when the dungeon runs out.
pub open spec fn fill_all(room: Seq<Option<Card>>, dungeon: Seq<Card>) -> (
    Seq<Option<Card>>,
    Seq<Card>,
)
    recommends
        room.len() == 4,
{
    let s0 = fill_slot(room, dungeon, 0);
    let s1 = fill_slot(s0.0, s0.1, 1);
    let s2 = fill_slot(s1.0, s1.1, 2);
    fill_slot(s2.0, s2.1, 3)
}

/// Filling the room moves cards between dungeon and slots without creating or
/// losing any: the occupied count plus the dungeon count is conserved.
pub proof fn lemma_fill_all_conserves(room: Seq<Option<Card>>, dungeon: Seq<Card>)
    requires
        room.len() == 4,
    ensures
        ({
            let f = fill_all(room, dungeon);
            &&& f.0.len() == 4
            &&& occupied_count(f.0) + f.1.len() == occupied_count(room) + dungeon.len()
            &&& f.1.len() <= dungeon.len()
        }),
{
}

/// Exactly four slots, each empty or holding one card. Slots are only
/// reordered by refills in slot order; `clear` empties all four at once.
#[derive(PartialEq, Debug)]
pub struct Room {
    slots: Vec<Option<Card>>,
}

impl View for Room {
    type V = Seq<Option<Card>>;

    closed spec fn view(&self) -> Seq<Option<Card>> {
        self.slots@
    }
}

impl Room {
    /// A room is well formed when it has its four slots.
    pub open spec fn wf(&self) -> bool {
        self@.len() == 4
    }

    /// A room with four empty slots.
    pub fn empty() -> (r: Room)
        ensures
            r@ == empty_slots(),
            r.wf(),
    {
        let mut slots: Vec<Option<Card>> = Vec::new();
        slots.push(None);
        slots.push(None);
        slots.push(None);
        slots.push(None);
        proof {
            assert(slots@ =~= empty_slots());
        }
        Room { slots }
    }

    /// Fills one slot from the pile as `fill_slot` describes.
    fn fill_one(&mut self, pile: &mut Pile, i: usize)
        requires
            old(self).wf(),
            i < 4,
        ensures
            final(self)@ == fill_slot(old(self)@, old(pile)@, i as int).0,
            final(pile)@ == fill_slot(old(self)@, old(pile)@, i as int).1,
            final(self).wf(),
    {
        if self.slots[i].is_none() {
            let card = pile.pop_top_card();
            self.slots.set(i, card);
            proof {
                if old(pile)@.len() == 0 {
                    assert(old(self)@.update(i as int, None) =~= old(self)@);
                }
            }
        }
    }

    /// For each empty slot in slot order, draws one card from the pile and
    /// places it; occupied slots are left untouched, and slots stay empty
    /// once the pile is exhausted.
    pub fn populate_from(&mut self, pile: &mut Pile)
        requires
            old(self).wf(),
        ensures
            final(self)@ == fill_all(old(self)@, old(pile)@).0,
            final(pile)@ == fill_all(old(self)@, old(pile)@).1,
            final(self).wf(),
    {
        self.fill_one(pile, 0);
        self.fill_one(pile, 1);
        self.fill_one(pile, 2);
        self.fill_one(pile, 3);
    }

    /// The four slots, in slot order, for display.
    pub fn iter(&self) -> (r: Vec<Option<Card>>)
        requires
            self.wf(),
        ensures
            r@ == self@,
    {
        let mut r: Vec<Option<Card>> = Vec::new();
        r.push(self.slots[0]);
        r.push(self.slots[1]);
        r.push(self.slots[2]);
        r.push(self.slots[3]);
        proof {
            assert(r@ =~= self@);
        }
        r
    }

    /// Empties every slot and returns the cards that were present, in slot
    /// order.
    pub fn clear(&mut self) -> (cards: Vec<Card>)
        requires
            old(self).wf(),
        ensures
            final(self)@ == empty_slots(),
            final(self).wf(),
            cards@ == cards_of(old(self)@),
    {
        let mut cards: Vec<Card> = Vec::new();
        if let Some(c) = self.slots[0] {
            cards.push(c);
        }
        if let Some(c) = self.slots[1] {
            cards.push(c);
        }
        if let Some(c) = self.slots[2] {
            cards.push(c);
        }
        if let Some(c) = self.slots[3] {
            cards.push(c);
        }
        self.slots.set(0, None);
        self.slots.set(1, None);
        self.slots.set(2, None);
        self.slots.set(3, None);
        proof {
            assert(self@ =~= empty_slots());
            assert(cards@ =~= cards_of(old(self)@));
        }
        cards
    }

    /// How many slots currently hold a card.
    pub fn count_occupied_slots(&self) -> (n: usize)
        requires
            self.wf(),
        ensures
            n == occupied_count(self@),
    {
        let mut n: usize = 0;
        if self.slots[0].is_some() {
            n = n + 1;
        }
        if self.slots[1].is_some() {
            n = n + 1;
        }
        if self.slots[2].is_some() {
            n = n + 1;
        }
        if self.slots[3].is_some() {
            n = n + 1;
        }
        n
    }

    /// Whether all four slots hold a card.
    pub fn is_full(&self) -> (r: bool)
        requires
            self.wf(),
        ensures
            r <==> occupied_count(self@) == 4,
    {
        self.count_occupied_slots() == 4
    }

    /// Removes and returns the card at `slot` if present. An index outside
    /// 0..=3 is a caller error, excluded by contract.
    pub fn take_card(&mut self, slot: usize) -> (c: Option<Card>)
        requires
            old(self).wf(),
            slot < 4,
        ensures
            c == old(self)@[slot as int],
            final(self)@ == old(self)@.update(slot as int, None),
            final(self).wf(),
    {
        let card = self.slots[slot];
        self.slots.set(slot, None);
        card
    }
}

} // verus!
