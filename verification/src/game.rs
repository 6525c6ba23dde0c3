//! The rules engine: one `Game` owns the dungeon pile, the room, the player's
//! health, the equipped weapon and its kill history, and the two single-turn
//! flags. The only mutating operations are `start_new`, `interact_slot` and
//! `try_avoid`; `check_game_over` is a read-only query.
//!
//! Every transition is specified against the ghost model [`GameV`], so the
//! contracts pin down the next state exactly (up to the order a shuffle
//! picks).

use vstd::prelude::*;
use vstd::math::max;
use vstd::math::min;
use crate::card::Card;
use crate::card::Rank;
use crate::card::Suite;
use crate::pile::Pile;
use crate::room::Room;
use crate::room::cards_of;
use crate::room::empty_slots;
use crate::room::fill_all;
use crate::room::lemma_fill_all_conserves;
use crate::room::occupied_count;

verus! {

/// How a finished game ended.
#[derive(PartialEq, Eq, Debug, Clone, Copy)]
pub enum GameOverState {
    Win,
    Death,
}

/// The ghost model of a game state: the same fields as [`Game`], over
/// mathematical types.
#[verifier::ext_equal]
pub ghost struct GameV {
    pub dungeon: Seq<Card>,
    pub room: Seq<Option<Card>>,
    pub slain: Seq<Card>,
    pub health: int,
    pub discard_count: int,
    pub equipped: Option<Card>,
    pub already_avoided: bool,
    pub already_healed: bool,
}

impl GameV {
    /// How many room slots hold a card.
    pub open spec fn occupied(self) -> int {
        occupied_count(self.room)
    }

    /// 1 when a weapon is equipped, else 0.
    pub open spec fn equipped_count(self) -> int {
        if self.equipped is Some {
            1
        } else {
            0
        }
    }

    /// Every card of the game is in exactly one place: still in the dungeon,
    /// face up in the room, on the slain list, equipped, or counted by the
    /// discard counter. This sum is conserved by every move.
    pub open spec fn card_total(self) -> int {
        self.dungeon.len() + self.occupied() + self.slain.len() + self.discard_count
            + self.equipped_count()
    }

    /// The slain values never increase within one equip-cycle.
    pub open spec fn slain_values_non_increasing(self) -> bool {
        forall|i: int, j: int|
            0 <= i <= j < self.slain.len() ==> self.slain[j].value() <= self.slain[i].value()
    }

    /// The state invariant of every reachable game: four room slots, health
    /// between 0 and 20, at most 48 cards in play, only monsters on the slain
    /// list in non-increasing value order and only under an equipped weapon,
    /// and only a weapon card in the equipped place.
    pub open spec fn wf(self) -> bool {
        &&& self.room.len() == 4
        &&& 0 <= self.health <= 20
        &&& 0 <= self.discard_count
        &&& self.card_total() <= 48
        &&& forall|i: int| 0 <= i < self.slain.len() ==> self.slain[i].is_monster()
        &&& self.slain_values_non_increasing()
        &&& self.slain.len() > 0 ==> self.equipped is Some
        &&& self.equipped matches Some(w) ==> w.is_weapon()
    }

    /// Death at zero health; a win once dungeon and room are both empty;
    /// otherwise the game is still in progress.
    pub open spec fn game_over(self) -> Option<GameOverState> {
        if self.health == 0 {
            Some(GameOverState::Death)
        } else if self.dungeon.len() == 0 && self.occupied() == 0 {
            Some(GameOverState::Win)
        } else {
            None
        }
    }

    /// The turn boundary: refill the room from the dungeon and reset both
    /// once-per-room flags.
    pub open spec fn with_room_filled(self) -> GameV {
        let f = fill_all(self.room, self.dungeon);
        GameV { room: f.0, dungeon: f.1, already_avoided: false, already_healed: false, ..self }
    }

    /// Avoiding is possible only for a full room that was not avoided already.
    pub open spec fn avoid_enabled(self) -> bool {
        !self.already_avoided && self.occupied() == 4
    }

    /// An eligible avoid: the four room cards, in the order the shuffle chose,
    /// go under the dungeon; the room refills from the top.
    pub open spec fn avoid_step(self, shuffled: Seq<Card>) -> GameV {
        let f = fill_all(empty_slots(), shuffled.reverse() + self.dungeon);
        GameV { room: f.0, dungeon: f.1, already_avoided: true, ..self }
    }

    /// What `try_avoid` leaves behind: the avoid step when eligible, the
    /// unchanged state otherwise.
    pub open spec fn avoid_result(self, shuffled: Seq<Card>) -> GameV {
        if self.avoid_enabled() {
            self.avoid_step(shuffled)
        } else {
            self
        }
    }

    /// A weapon can be used against a monster only while the slain values
    /// stay non-increasing: the monster must not exceed the last slain value.
    pub open spec fn can_fight(self, monster: Card) -> bool {
        self.equipped is Some && (self.slain.len() == 0 || monster.value()
            <= self.slain.last().value())
    }

    /// A potion heals once per room, capped at 20, and is always consumed.
    pub open spec fn resolve_potion(self, card: Card) -> GameV {
        GameV {
            health: if self.already_healed {
                self.health
            } else {
                min(20, self.health + card.value())
            },
            already_healed: true,
            discard_count: self.discard_count + 1,
            ..self
        }
    }

    /// Equipping discards the previous weapon and its whole kill history,
    /// counting one discard for each card forfeited.
    pub open spec fn resolve_weapon(self, card: Card) -> GameV {
        GameV {
            discard_count: self.discard_count + self.equipped_count() + self.slain.len(),
            slain: Seq::empty(),
            equipped: Some(card),
            ..self
        }
    }

    /// A monster is fought with the weapon when allowed (damage is the excess
    /// of the monster over the weapon, and the monster joins the slain list),
    /// else bare-handed for its full value.
    pub open spec fn resolve_monster(self, card: Card) -> GameV {
        if self.can_fight(card) {
            GameV {
                health: max(0, self.health - max(0, card.value() - self.equipped.unwrap().value())),
                slain: self.slain.push(card),
                ..self
            }
        } else {
            GameV {
                health: max(0, self.health - card.value()),
                discard_count: self.discard_count + 1,
                ..self
            }
        }
    }

    /// Resolving a taken card by its category.
    pub open spec fn resolve_card(self, card: Card) -> GameV {
        match card.suite {
            Suite::Hearts => self.resolve_potion(card),
            Suite::Diamonds => self.resolve_weapon(card),
            Suite::Clubs | Suite::Spades => self.resolve_monster(card),
        }
    }

    /// What `interact_slot` leaves behind: an empty slot is a no-op; else the
    /// card is taken and resolved, and when exactly one card remains in the
    /// room the turn ends (refill and flag reset).
    pub open spec fn interact_step(self, slot: int) -> GameV {
        match self.room[slot] {
            None => self,
            Some(card) => {
                let resolved = GameV { room: self.room.update(slot, None), ..self }.resolve_card(
                    card,
                );
                if occupied_count(resolved.room) == 1 {
                    resolved.with_room_filled()
                } else {
                    resolved
                }
            },
        }
    }
}

/// The standard dungeon: all thirteen Clubs, Diamonds and Spades, and the
/// Hearts from Two to Ten — 48 cards.
pub open spec fn initial_deck() -> Seq<Card> {
    seq![
        Card { suite: Suite::Clubs, rank: Rank::Two },
        Card { suite: Suite::Clubs, rank: Rank::Three },
        Card { suite: Suite::Clubs, rank: Rank::Four },
        Card { suite: Suite::Clubs, rank: Rank::Five },
        Card { suite: Suite::Clubs, rank: Rank::Six },
        Card { suite: Suite::Clubs, rank: Rank::Seven },
        Card { suite: Suite::Clubs, rank: Rank::Eight },
        Card { suite: Suite::Clubs, rank: Rank::Nine },
        Card { suite: Suite::Clubs, rank: Rank::Ten },
        Card { suite: Suite::Clubs, rank: Rank::Jack },
        Card { suite: Suite::Clubs, rank: Rank::Queen },
        Card { suite: Suite::Clubs, rank: Rank::King },
        Card { suite: Suite::Clubs, rank: Rank::Ace },
        Card { suite: Suite::Diamonds, rank: Rank::Two },
        Card { suite: Suite::Diamonds, rank: Rank::Three },
        Card { suite: Suite::Diamonds, rank: Rank::Four },
        Card { suite: Suite::Diamonds, rank: Rank::Five },
        Card { suite: Suite::Diamonds, rank: Rank::Six },
        Card { suite: Suite::Diamonds, rank: Rank::Seven },
        Card { suite: Suite::Diamonds, rank: Rank::Eight },
        Card { suite: Suite::Diamonds, rank: Rank::Nine },
        Card { suite: Suite::Diamonds, rank: Rank::Ten },
        Card { suite: Suite::Diamonds, rank: Rank::Jack },
        Card { suite: Suite::Diamonds, rank: Rank::Queen },
        Card { suite: Suite::Diamonds, rank: Rank::King },
        Card { suite: Suite::Diamonds, rank: Rank::Ace },
        Card { suite: Suite::Spades, rank: Rank::Two },
        Card { suite: Suite::Spades, rank: Rank::Three },
        Card { suite: Suite::Spades, rank: Rank::Four },
        Card { suite: Suite::Spades, rank: Rank::Five },
        Card { suite: Suite::Spades, rank: Rank::Six },
        Card { suite: Suite::Spades, rank: Rank::Seven },
        Card { suite: Suite::Spades, rank: Rank::Eight },
        Card { suite: Suite::Spades, rank: Rank::Nine },
        Card { suite: Suite::Spades, rank: Rank::Ten },
        Card { suite: Suite::Spades, rank: Rank::Jack },
        Card { suite: Suite::Spades, rank: Rank::Queen },
        Card { suite: Suite::Spades, rank: Rank::King },
        Card { suite: Suite::Spades, rank: Rank::Ace },
        Card { suite: Suite::Hearts, rank: Rank::Two },
        Card { suite: Suite::Hearts, rank: Rank::Three },
        Card { suite: Suite::Hearts, rank: Rank::Four },
        Card { suite: Suite::Hearts, rank: Rank::Five },
        Card { suite: Suite::Hearts, rank: Rank::Six },
        Card { suite: Suite::Hearts, rank: Rank::Seven },
        Card { suite: Suite::Hearts, rank: Rank::Eight },
        Card { suite: Suite::Hearts, rank: Rank::Nine },
        Card { suite: Suite::Hearts, rank: Rank::Ten },
    ]
}

/// The state a fresh game has after filling the room from the given deck.
pub open spec fn start_from(deck: Seq<Card>) -> GameV {
    let f = fill_all(empty_slots(), deck);
    GameV {
        dungeon: f.1,
        room: f.0,
        slain: Seq::empty(),
        health: 20,
        discard_count: 0,
        equipped: None,
        already_avoided: false,
        already_healed: false,
    }
}

/// The game state: the engine is the sole owner of its pile and room.
#[derive(PartialEq, Debug)]
pub struct Game {
    pub dungeon: Pile,
    pub slain: Vec<Card>,
    pub room: Room,
    pub health: u8,
    pub discard_count: u8,
    pub equipped: Option<Card>,
    pub already_avoided: bool,
    pub already_healed: bool,
}

impl View for Game {
    type V = GameV;

    open spec fn view(&self) -> GameV {
        GameV {
            dungeon: self.dungeon@,
            room: self.room@,
            slain: self.slain@,
            health: self.health as int,
            discard_count: self.discard_count as int,
            equipped: self.equipped,
            already_avoided: self.already_avoided,
            already_healed: self.already_healed,
        }
    }
}

const INITIAL_HEALTH: u8 = 20;

/// The 48 starting cards, in a fixed order (shuffled before use).
fn initial_dungeon() -> (v: Vec<Card>)
    ensures
        v@ == initial_deck(),
{
    let mut v: Vec<Card> = Vec::new();
    v.push(Card { suite: Suite::Clubs, rank: Rank::Two });
    v.push(Card { suite: Suite::Clubs, rank: Rank::Three });
    v.push(Card { suite: Suite::Clubs, rank: Rank::Four });
    v.push(Card { suite: Suite::Clubs, rank: Rank::Five });
    v.push(Card { suite: Suite::Clubs, rank: Rank::Six });
    v.push(Card { suite: Suite::Clubs, rank: Rank::Seven });
    v.push(Card { suite: Suite::Clubs, rank: Rank::Eight });
    v.push(Card { suite: Suite::Clubs, rank: Rank::Nine });
    v.push(Card { suite: Suite::Clubs, rank: Rank::Ten });
    v.push(Card { suite: Suite::Clubs, rank: Rank::Jack });
    v.push(Card { suite: Suite::Clubs, rank: Rank::Queen });
    v.push(Card { suite: Suite::Clubs, rank: Rank::King });
    v.push(Card { suite: Suite::Clubs, rank: Rank::Ace });
    v.push(Card { suite: Suite::Diamonds, rank: Rank::Two });
    v.push(Card { suite: Suite::Diamonds, rank: Rank::Three });
    v.push(Card { suite: Suite::Diamonds, rank: Rank::Four });
    v.push(Card { suite: Suite::Diamonds, rank: Rank::Five });
    v.push(Card { suite: Suite::Diamonds, rank: Rank::Six });
    v.push(Card { suite: Suite::Diamonds, rank: Rank::Seven });
    v.push(Card { suite: Suite::Diamonds, rank: Rank::Eight });
    v.push(Card { suite: Suite::Diamonds, rank: Rank::Nine });
    v.push(Card { suite: Suite::Diamonds, rank: Rank::Ten });
    v.push(Card { suite: Suite::Diamonds, rank: Rank::Jack });
    v.push(Card { suite: Suite::Diamonds, rank: Rank::Queen });
    v.push(Card { suite: Suite::Diamonds, rank: Rank::King });
    v.push(Card { suite: Suite::Diamonds, rank: Rank::Ace });
    v.push(Card { suite: Suite::Spades, rank: Rank::Two });
    v.push(Card { suite: Suite::Spades, rank: Rank::Three });
    v.push(Card { suite: Suite::Spades, rank: Rank::Four });
    v.push(Card { suite: Suite::Spades, rank: Rank::Five });
    v.push(Card { suite: Suite::Spades, rank: Rank::Six });
    v.push(Card { suite: Suite::Spades, rank: Rank::Seven });
    v.push(Card { suite: Suite::Spades, rank: Rank::Eight });
    v.push(Card { suite: Suite::Spades, rank: Rank::Nine });
    v.push(Card { suite: Suite::Spades, rank: Rank::Ten });
    v.push(Card { suite: Suite::Spades, rank: Rank::Jack });
    v.push(Card { suite: Suite::Spades, rank: Rank::Queen });
    v.push(Card { suite: Suite::Spades, rank: Rank::King });
    v.push(Card { suite: Suite::Spades, rank: Rank::Ace });
    v.push(Card { suite: Suite::Hearts, rank: Rank::Two });
    v.push(Card { suite: Suite::Hearts, rank: Rank::Three });
    v.push(Card { suite: Suite::Hearts, rank: Rank::Four });
    v.push(Card { suite: Suite::Hearts, rank: Rank::Five });
    v.push(Card { suite: Suite::Hearts, rank: Rank::Six });
    v.push(Card { suite: Suite::Hearts, rank: Rank::Seven });
    v.push(Card { suite: Suite::Hearts, rank: Rank::Eight });
    v.push(Card { suite: Suite::Hearts, rank: Rank::Nine });
    v.push(Card { suite: Suite::Hearts, rank: Rank::Ten });
    proof {
        assert(v@ =~= initial_deck());
    }
    v
}

impl Game {
    /// Increments the discard counter by one.
    fn discard(&mut self)
        requires
            old(self).discard_count < u8::MAX,
        ensures
            final(self)@ == (GameV { discard_count: old(self)@.discard_count + 1, ..old(self)@ }),
    {
        self.discard_count = self.discard_count + 1;
    }

    /// Lowers health by `damage`, never below zero.
    fn take_damage(&mut self, damage: u8)
        ensures
            final(self)@ == (GameV { health: max(0, old(self)@.health - damage), ..old(self)@ }),
    {
        self.health = self.health.saturating_sub(damage);
    }

    /// A fight without weapon benefit: full value as damage, one discard.
    fn fight_bare_handed(&mut self, monster: Card)
        requires
            old(self).discard_count < u8::MAX,
        ensures
            final(self)@ == (GameV {
                health: max(0, old(self)@.health - monster.value()),
                discard_count: old(self)@.discard_count + 1,
                ..old(self)@
            }),
    {
        let v: u8 = monster.value();
        self.take_damage(v);
        self.discard();
    }

    /// The most recently slain monster, if any.
    fn last_slain_monster(&self) -> (r: Option<Card>)
        ensures
            r == (if self@.slain.len() == 0 {
                None::<Card>
            } else {
                Some(self@.slain.last())
            }),
    {
        if self.slain.len() == 0 {
            None
        } else {
            Some(self.slain[self.slain.len() - 1])
        }
    }

    /// Whether the equipped weapon may be used against this monster.
    fn can_fight(&self, monster: &Card) -> (r: bool)
        ensures
            r == self@.can_fight(*monster),
    {
        match (self.equipped, self.last_slain_monster()) {
            (Some(_), None) => true,
            (Some(_), Some(slain_card)) => monster.value() <= slain_card.value(),
            _ => false,
        }
    }

    /// Whether this room's heal is still available.
    fn can_heal(&self) -> (r: bool)
        ensures
            r == !self@.already_healed,
    {
        !self.already_healed
    }

    /// Raises health by `health`, capped at 20, and spends the room's heal.
    fn heal(&mut self, health: u8)
        ensures
            final(self)@ == (GameV {
                health: min(20, old(self)@.health + health),
                already_healed: true,
                ..old(self)@
            }),
    {
        let sum: u8 = self.health.saturating_add(health);
        self.health = if sum > 20 {
            20
        } else {
            sum
        };
        self.already_healed = true;
    }

    /// The turn boundary: refill the room and reset both per-room flags.
    fn reset_for_next_turn(&mut self)
        requires
            old(self).room.wf(),
        ensures
            final(self)@ == old(self)@.with_room_filled(),
    {
        self.room.populate_from(&mut self.dungeon);
        self.already_avoided = false;
        self.already_healed = false;
    }

    /// Forfeits the equipped weapon and its kill history, counting one
    /// discard for the weapon and one per slain monster.
    fn discard_equipped(&mut self)
        requires
            old(self)@.discard_count + old(self)@.equipped_count() + old(self)@.slain.len()
                <= u8::MAX,
        ensures
            final(self)@ == (GameV {
                discard_count: old(self)@.discard_count + old(self)@.equipped_count() + old(
                    self,
                )@.slain.len(),
                slain: Seq::empty(),
                equipped: None,
                ..old(self)@
            }),
    {
        if self.equipped.is_some() {
            self.discard();
            self.equipped = None;
        }
        let n: usize = self.slain.len();
        self.discard_count = self.discard_count + (n as u8);
        self.slain.clear();
    }

    /// Makes the card the active weapon.
    fn equip(&mut self, card: Card)
        ensures
            final(self)@ == (GameV { equipped: Some(card), ..old(self)@ }),
    {
        self.equipped = Some(card);
    }

    /// The value of the equipped weapon, if any.
    fn weapon_damage(&self) -> (r: Option<u8>)
        ensures
            r is Some <==> self.equipped is Some,
            r is Some ==> r.unwrap() == self.equipped.unwrap().value(),
    {
        match self.equipped {
            Some(weapon) => Some(weapon.value()),
            None => None,
        }
    }

    /// Builds the fixed 48-card dungeon, shuffles it, and deals the first
    /// room: health 20, nothing equipped, nothing slain, both flags off.
    pub fn start_new(rng: &mut rand::rngs::ThreadRng) -> (game: Game)
        ensures
            game@.wf(),
            game@.card_total() == 48,
            exists|s: Seq<Card>|
                s.to_multiset() == initial_deck().to_multiset() && game@ == start_from(s),
    {
        let mut dungeon = Pile::from(initial_dungeon());
        dungeon.shuffle(rng);
        let ghost shuffled = dungeon@;
        let mut game = Game {
            dungeon,
            slain: Vec::new(),
            health: INITIAL_HEALTH,
            room: Room::empty(),
            discard_count: 0,
            equipped: None,
            already_avoided: false,
            already_healed: false,
        };
        game.room.populate_from(&mut game.dungeon);
        proof {
            lemma_fill_all_conserves(empty_slots(), shuffled);
            assert(game@ == start_from(shuffled));
            assert(shuffled.to_multiset() == initial_deck().to_multiset() && game@ == start_from(
                shuffled,
            ));
        }
        game
    }

    /// Puts the whole room (only when full, and at most once per room) under
    /// the dungeon in a shuffled order and deals a new room.
    pub fn try_avoid(&mut self, rng: &mut rand::rngs::ThreadRng)
        requires
            old(self)@.wf(),
        ensures
            final(self)@.wf(),
            final(self)@.card_total() == old(self)@.card_total(),
            exists|s: Seq<Card>|
                s.to_multiset() == cards_of(old(self)@.room).to_multiset() && final(self)@ == old(
                    self,
                )@.avoid_result(s),
    {
        if self.already_avoided {
            proof {
                let s = cards_of(old(self)@.room);
                assert(s.to_multiset() == cards_of(old(self)@.room).to_multiset() && self@ == old(
                    self,
                )@.avoid_result(s));
            }
            return;
        }
        if !self.room.is_full() {
            proof {
                let s = cards_of(old(self)@.room);
                assert(s.to_multiset() == cards_of(old(self)@.room).to_multiset() && self@ == old(
                    self,
                )@.avoid_result(s));
            }
            return;
        }
        let mut cards = self.room.clear();
        crate::shuffling::shuffle_cards(&mut cards, rng);
        let ghost shuffled = cards@;
        self.dungeon.add_to_bottom(cards);
        self.room.populate_from(&mut self.dungeon);
        self.already_avoided = true;
        proof {
            assert(cards_of(old(self)@.room).len() == 4);
            lemma_avoid_preserves_wf(old(self)@, shuffled);
            assert(self@ == old(self)@.avoid_step(shuffled));
            assert(shuffled.to_multiset() == cards_of(old(self)@.room).to_multiset() && self@
                == old(self)@.avoid_result(shuffled));
        }
    }

    /// Takes the card at `slot` (an empty slot is a no-op) and resolves it:
    /// Hearts heal once per room, Diamonds replace the weapon, Clubs and
    /// Spades are fought. When exactly one room card remains afterwards the
    /// turn ends: the room refills and both per-room flags reset.
    pub fn interact_slot(&mut self, slot: usize)
        requires
            old(self)@.wf(),
            slot < 4,
        ensures
            final(self)@ == old(self)@.interact_step(slot as int),
            final(self)@.wf(),
            final(self)@.card_total() == old(self)@.card_total(),
    {
        proof {
            lemma_interact_preserves_wf(old(self)@, slot as int);
        }
        let card_opt = self.room.take_card(slot);
        let card = match card_opt {
            Some(c) => c,
            None => {
                proof {
                    assert(self@.room =~= old(self)@.room);
                    assert(self@ =~= old(self)@);
                }
                return;
            },
        };
        let ghost g1 = GameV { room: old(self)@.room.update(slot as int, None), ..old(self)@ };
        assert(self@ == g1);
        match card.suite {
            Suite::Hearts => {
                if self.can_heal() {
                    let v: u8 = card.value();
                    self.heal(v);
                }
                self.discard();
                assert(self@ == g1.resolve_potion(card));
            },
            Suite::Clubs | Suite::Spades => {
                if self.equipped.is_some() && self.can_fight(&card) {
                    let damage: u8 = self.weapon_damage().unwrap();
                    let excess: u8 = card.value().saturating_sub(damage);
                    self.take_damage(excess);
                    self.slain.push(card);
                } else {
                    self.fight_bare_handed(card);
                }
                assert(self@ == g1.resolve_monster(card));
            },
            Suite::Diamonds => {
                self.discard_equipped();
                self.equip(card);
                assert(self@ == g1.resolve_weapon(card));
            },
        }
        let occupied_slots: usize = self.room.count_occupied_slots();
        if occupied_slots == 1 {
            self.reset_for_next_turn();
        }
    }

    /// Death if health is exhausted, a win once the dungeon and the room are
    /// both empty, else the game goes on.
    pub fn check_game_over(&self) -> (r: Option<GameOverState>)
        requires
            self.room.wf(),
        ensures
            r == self@.game_over(),
    {
        if self.health == 0 {
            Some(GameOverState::Death)
        } else if self.dungeon.is_empty() && self.room.count_occupied_slots() == 0 {
            Some(GameOverState::Win)
        } else {
            None
        }
    }
}

/// Interacting with a slot preserves the state invariant — in particular
/// health stays within 0..=20 — and conserves the card total.
pub proof fn lemma_interact_preserves_wf(g: GameV, slot: int)
    requires
        g.wf(),
        0 <= slot < 4,
    ensures
        g.interact_step(slot).wf(),
        g.interact_step(slot).card_total() == g.card_total(),
{
    match g.room[slot] {
        None => {},
        Some(card) => {
            let g1 = GameV { room: g.room.update(slot, None), ..g };
            assert(occupied_count(g1.room) == occupied_count(g.room) - 1);
            let g2 = g1.resolve_card(card);
            match card.suite {
                Suite::Hearts => {},
                Suite::Diamonds => {},
                Suite::Clubs | Suite::Spades => {
                    if g1.can_fight(card) {
                        let s2 = g1.slain.push(card);
                        assert forall|i: int, j: int|
                            0 <= i <= j < s2.len() implies s2[j].value() <= s2[i].value() by {
                            if j < g.slain.len() {
                                assert(g.slain[j].value() <= g.slain[i].value());
                            } else if i < j {
                                assert(g.slain[i].value() >= g.slain[g.slain.len() - 1].value());
                            }
                        }
                        assert forall|i: int| 0 <= i < s2.len() implies s2[i].is_monster() by {
                            if i < g.slain.len() {
                                assert(g.slain[i].is_monster());
                            }
                        }
                    }
                },
            }
            assert(g2.card_total() == g.card_total());
            assert(g2.wf());
            if occupied_count(g2.room) == 1 {
                lemma_fill_all_conserves(g2.room, g2.dungeon);
            }
        },
    }
}

/// Card conservation: the sum of dungeon cards, occupied room slots, slain
/// cards, the discard counter and the equipped weapon is unchanged by any
/// slot interaction.
pub proof fn lemma_interact_conserves_total(g: GameV, slot: int)
    requires
        g.wf(),
        0 <= slot < 4,
    ensures
        g.interact_step(slot).card_total() == g.card_total(),
{
    lemma_interact_preserves_wf(g, slot);
}

/// Avoiding a room preserves the state invariant and conserves the card
/// total, whatever order the shuffle picked for the four returned cards.
pub proof fn lemma_avoid_preserves_wf(g: GameV, shuffled: Seq<Card>)
    requires
        g.wf(),
        g.avoid_enabled() ==> shuffled.len() == 4,
    ensures
        g.avoid_result(shuffled).wf(),
        g.avoid_result(shuffled).card_total() == g.card_total(),
{
    if g.avoid_enabled() {
        lemma_fill_all_conserves(empty_slots(), shuffled.reverse() + g.dungeon);
    }
}

/// Avoiding is idempotent within one room: after one `try_avoid` a second
/// one, without an intervening refill, changes nothing.
pub proof fn lemma_try_avoid_idempotent(g: GameV, s1: Seq<Card>, s2: Seq<Card>)
    ensures
        g.avoid_result(s1).avoid_result(s2) == g.avoid_result(s1),
{
    if g.avoid_enabled() {
        assert(!g.avoid_step(s1).avoid_enabled());
    }
}

/// Healing is once per room: a potion interacted while the room's heal is
/// already spent changes no health, though the potion is still consumed.
pub proof fn lemma_second_potion_does_not_heal(g: GameV, slot: int)
    requires
        g.wf(),
        0 <= slot < 4,
        g.room[slot] matches Some(c) && c.is_potion(),
        g.already_healed,
    ensures
        g.interact_step(slot).health == g.health,
        g.interact_step(slot).discard_count == g.discard_count + 1,
{
}

/// Weapon durability: the slain values stay non-increasing, and a monster
/// whose value exceeds the last slain value is resolved bare-handed, leaving
/// the weapon and the slain list untouched.
pub proof fn lemma_weapon_durability(g: GameV, slot: int)
    requires
        g.wf(),
        0 <= slot < 4,
    ensures
        g.interact_step(slot).slain_values_non_increasing(),
        (g.room[slot] matches Some(c) && c.is_monster() && !g.can_fight(c)) ==> {
            let stepped = g.interact_step(slot);
            &&& stepped.slain == g.slain
            &&& stepped.equipped == g.equipped
            &&& stepped.health == max(0, g.health - g.room[slot].unwrap().value())
        },
{
    lemma_interact_preserves_wf(g, slot);
}

/// Win is reachable: an empty dungeon with an empty room reports a win
/// whenever the player still has health.
pub proof fn lemma_win_when_cleared(g: GameV)
    requires
        g.health > 0,
        g.dungeon.len() == 0,
        occupied_count(g.room) == 0,
    ensures
        g.game_over() == Some(GameOverState::Win),
{
}

/// Death dominates: at zero health the game is over even if cards remain.
pub proof fn lemma_death_dominates(g: GameV)
    requires
        g.health == 0,
    ensures
        g.game_over() == Some(GameOverState::Death),
{
}

} // verus!
