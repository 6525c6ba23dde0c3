//! Tests for the game engine: cards, pile, room, and the rules state machine.

use scoundrel::card::Card;
use scoundrel::card::Rank;
use scoundrel::card::Suite;
use scoundrel::game::Game;
use scoundrel::game::GameOverState;
use scoundrel::pile::Pile;
use scoundrel::room::Room;

fn card(rank: Rank, suite: Suite) -> Card {
    Card { suite, rank }
}

/// A game with a chosen dungeon (bottom to top) and chosen room slots,
/// full health and nothing equipped.
fn setup(dungeon_bottom_to_top: Vec<Card>, room_cards: [Card; 4]) -> Game {
    let mut all = dungeon_bottom_to_top;
    all.push(room_cards[3]);
    all.push(room_cards[2]);
    all.push(room_cards[1]);
    all.push(room_cards[0]);
    let mut pile = Pile::from(all);
    let mut room = Room::empty();
    room.populate_from(&mut pile);
    Game {
        dungeon: pile,
        slain: Vec::new(),
        room,
        health: 20,
        discard_count: 0,
        equipped: None,
        already_avoided: false,
        already_healed: false,
    }
}

/// The conservation sum: dungeon + occupied room slots + slain + discards
/// + equipped.
fn total(game: &Game) -> usize {
    game.dungeon.count_cards() as usize + game.room.count_occupied_slots() + game.slain.len()
        + game.discard_count as usize + if game.equipped.is_some() { 1 } else { 0 }
}

fn room_values_sorted(game: &Game) -> Vec<u8> {
    let mut values: Vec<u8> = Vec::new();
    for slot in game.room.iter() {
        if let Some(c) = slot {
            values.push(c.value());
        }
    }
    values.sort();
    values
}

#[test]
fn card_values_are_exact() {
    assert_eq!(card(Rank::Two, Suite::Clubs).value(), 2);
    assert_eq!(card(Rank::Three, Suite::Hearts).value(), 3);
    assert_eq!(card(Rank::Four, Suite::Spades).value(), 4);
    assert_eq!(card(Rank::Five, Suite::Diamonds).value(), 5);
    assert_eq!(card(Rank::Six, Suite::Clubs).value(), 6);
    assert_eq!(card(Rank::Seven, Suite::Clubs).value(), 7);
    assert_eq!(card(Rank::Eight, Suite::Clubs).value(), 8);
    assert_eq!(card(Rank::Nine, Suite::Clubs).value(), 9);
    assert_eq!(card(Rank::Ten, Suite::Clubs).value(), 10);
    assert_eq!(card(Rank::Jack, Suite::Clubs).value(), 11);
    assert_eq!(card(Rank::Queen, Suite::Clubs).value(), 12);
    assert_eq!(card(Rank::King, Suite::Clubs).value(), 13);
    assert_eq!(card(Rank::Ace, Suite::Clubs).value(), 14);
}

#[test]
fn pile_draws_from_top_and_returns_to_bottom() {
    let a = card(Rank::Two, Suite::Clubs);
    let b = card(Rank::Three, Suite::Clubs);
    let c = card(Rank::Four, Suite::Clubs);
    let d = card(Rank::Five, Suite::Clubs);
    let mut pile = Pile::from(vec![a, b]);
    assert_eq!(pile.count_cards(), 2);
    pile.add_to_bottom(vec![c, d]);
    assert_eq!(pile.count_cards(), 4);
    // b was on top; a under it; the returned cards come afterwards in the
    // order they were given.
    assert_eq!(pile.pop_top_card(), Some(b));
    assert_eq!(pile.pop_top_card(), Some(a));
    assert_eq!(pile.pop_top_card(), Some(c));
    assert_eq!(pile.pop_top_card(), Some(d));
    assert_eq!(pile.pop_top_card(), None);
    assert!(pile.is_empty());
}

#[test]
fn room_partial_fill_and_clear() {
    let a = card(Rank::Two, Suite::Clubs);
    let b = card(Rank::Three, Suite::Spades);
    let mut pile = Pile::from(vec![a, b]);
    let mut room = Room::empty();
    assert_eq!(room.count_occupied_slots(), 0);
    room.populate_from(&mut pile);
    // Only two cards were available: slots 0 and 1 filled, 2 and 3 stay
    // empty, and that is a valid state, not an error.
    assert_eq!(room.count_occupied_slots(), 2);
    assert!(!room.is_full());
    assert!(pile.is_empty());
    assert_eq!(room.iter(), vec![Some(b), Some(a), None, None]);
    let cleared = room.clear();
    assert_eq!(cleared, vec![b, a]);
    assert_eq!(room.count_occupied_slots(), 0);
}

#[test]
fn room_take_card_empties_one_slot() {
    let a = card(Rank::Two, Suite::Clubs);
    let b = card(Rank::Three, Suite::Spades);
    let c = card(Rank::Four, Suite::Clubs);
    let d = card(Rank::Five, Suite::Hearts);
    let game = setup(vec![], [a, b, c, d]);
    let mut room = game.room;
    assert!(room.is_full());
    assert_eq!(room.take_card(2), Some(c));
    assert_eq!(room.take_card(2), None);
    assert_eq!(room.count_occupied_slots(), 3);
}

#[test]
fn start_new_deals_a_full_room_from_48_cards() {
    let mut rng = rand::rng();
    let game = Game::start_new(&mut rng);
    assert_eq!(game.health, 20);
    assert_eq!(game.discard_count, 0);
    assert_eq!(game.equipped, None);
    assert!(game.slain.is_empty());
    assert!(!game.already_avoided);
    assert!(!game.already_healed);
    assert!(game.room.is_full());
    assert_eq!(game.dungeon.count_cards(), 44);
    assert_eq!(total(&game), 48);
}

#[test]
fn bare_handed_fight_takes_full_value() {
    // Fresh game, nothing equipped, interact with a Club of value 7.
    let c7 = card(Rank::Seven, Suite::Clubs);
    let filler = card(Rank::Five, Suite::Hearts);
    let mut game = setup(
        vec![filler, filler],
        [c7, card(Rank::Two, Suite::Spades), card(Rank::Three, Suite::Spades), filler],
    );
    game.interact_slot(0);
    assert_eq!(game.health, 13);
    assert_eq!(game.discard_count, 1);
    assert!(game.slain.is_empty());
    assert_eq!(game.equipped, None);
}

#[test]
fn weapon_fights_then_degrades() {
    // Equip Diamond(10); Spade(6) is slain without damage; Spade(9)
    // exceeds the last slain value and is fought bare-handed.
    let d10 = card(Rank::Ten, Suite::Diamonds);
    let s6 = card(Rank::Six, Suite::Spades);
    let s9 = card(Rank::Nine, Suite::Spades);
    let filler = card(Rank::Two, Suite::Hearts);
    let mut game = setup(vec![filler, filler, filler], [d10, s6, s9, filler]);
    game.interact_slot(0);
    assert_eq!(game.equipped, Some(d10));
    assert_eq!(game.discard_count, 0);
    assert!(game.slain.is_empty());

    game.interact_slot(1);
    assert_eq!(game.health, 20);
    assert_eq!(game.slain, vec![s6]);
    assert_eq!(game.discard_count, 0);

    game.interact_slot(2);
    assert_eq!(game.health, 11);
    assert_eq!(game.slain, vec![s6]);
    assert_eq!(game.equipped, Some(d10));
    assert_eq!(game.discard_count, 1);
}

#[test]
fn weapon_negates_damage_of_weaker_monster() {
    let d10 = card(Rank::Ten, Suite::Diamonds);
    let s4 = card(Rank::Four, Suite::Spades);
    let filler = card(Rank::Two, Suite::Hearts);
    let mut game = setup(vec![filler], [d10, s4, filler, filler]);
    game.interact_slot(0);
    game.interact_slot(1);
    // damage = max(0, 4 - 10) = 0
    assert_eq!(game.health, 20);
    assert_eq!(game.slain, vec![s4]);
}

#[test]
fn equipping_discards_old_weapon_and_kills() {
    let d5 = card(Rank::Five, Suite::Diamonds);
    let d9 = card(Rank::Nine, Suite::Diamonds);
    let s4 = card(Rank::Four, Suite::Spades);
    let c3 = card(Rank::Three, Suite::Clubs);
    let filler = card(Rank::Two, Suite::Hearts);
    let mut game = setup(vec![filler, filler, filler], [d5, s4, c3, d9]);
    game.interact_slot(0);
    game.interact_slot(1);
    game.interact_slot(2);
    assert_eq!(game.slain, vec![s4, c3]);
    assert_eq!(game.discard_count, 0);
    // Equipping the new weapon forfeits the old one and both kills: 3 discards.
    game.interact_slot(3);
    assert_eq!(game.equipped, Some(d9));
    assert!(game.slain.is_empty());
    assert_eq!(game.discard_count, 3);
}

#[test]
fn healing_applies_once_per_room() {
    // Only the first potion of a room heals; both are consumed.
    let h5 = card(Rank::Five, Suite::Hearts);
    let h9 = card(Rank::Nine, Suite::Hearts);
    let c9 = card(Rank::Nine, Suite::Clubs);
    let filler = card(Rank::Two, Suite::Spades);
    let mut game = setup(vec![filler, filler, filler], [c9, h5, h9, filler]);
    game.interact_slot(0);
    assert_eq!(game.health, 11);
    game.interact_slot(1);
    assert_eq!(game.health, 16);
    assert_eq!(game.discard_count, 2);
    game.interact_slot(2);
    // Second potion of the room: consumed, but no healing.
    assert_eq!(game.health, 16);
    assert_eq!(game.discard_count, 3);
}

#[test]
fn healing_caps_at_20() {
    let h9 = card(Rank::Nine, Suite::Hearts);
    let c4 = card(Rank::Four, Suite::Clubs);
    let filler = card(Rank::Two, Suite::Spades);
    let mut game = setup(vec![filler, filler], [c4, h9, filler, filler]);
    game.interact_slot(0);
    assert_eq!(game.health, 16);
    game.interact_slot(1);
    assert_eq!(game.health, 20);
}

#[test]
fn health_floors_at_zero() {
    // Damage beyond remaining health leaves 0, never less.
    let ca = card(Rank::Ace, Suite::Clubs);
    let filler = card(Rank::Two, Suite::Hearts);
    let mut game = setup(vec![filler], [ca, filler, filler, filler]);
    game.health = 3;
    game.interact_slot(0);
    assert_eq!(game.health, 0);
    assert_eq!(game.check_game_over(), Some(GameOverState::Death));
}

#[test]
fn interacting_with_empty_slot_is_a_noop() {
    let a = card(Rank::Two, Suite::Clubs);
    let b = card(Rank::Three, Suite::Spades);
    let mut pile = Pile::from(vec![b, a]);
    let mut room = Room::empty();
    room.populate_from(&mut pile);
    let mut game = Game {
        dungeon: pile,
        slain: Vec::new(),
        room,
        health: 20,
        discard_count: 0,
        equipped: None,
        already_avoided: false,
        already_healed: false,
    };
    let before_room = game.room.iter();
    game.interact_slot(3);
    assert_eq!(game.room.iter(), before_room);
    assert_eq!(game.health, 20);
    assert_eq!(game.discard_count, 0);
}

#[test]
fn last_card_carries_over_and_resets_flags() {
    // The turn boundary is "exactly one slot left", not "room empty".
    let c3 = card(Rank::Three, Suite::Clubs);
    let c4 = card(Rank::Four, Suite::Clubs);
    let h2 = card(Rank::Two, Suite::Hearts);
    let s5 = card(Rank::Five, Suite::Spades);
    let d6 = card(Rank::Six, Suite::Diamonds);
    let mut game = setup(vec![d6, s5, h2], [c3, c4, h2, s5]);
    game.interact_slot(0);
    game.interact_slot(1);
    assert_eq!(game.room.count_occupied_slots(), 2);
    assert!(!game.already_healed);
    game.interact_slot(2);
    // Now only one card remained: the room refills and both flags reset.
    assert_eq!(game.room.count_occupied_slots(), 4);
    assert!(!game.already_avoided);
    assert!(!game.already_healed);
    assert!(game.dungeon.is_empty());
}

#[test]
fn try_avoid_returns_room_to_dungeon_bottom() {
    // All four room cards go under the dungeon, four new cards are
    // dealt, and the dungeon size shows no net change.
    let a = card(Rank::Two, Suite::Clubs);
    let b = card(Rank::Three, Suite::Clubs);
    let c = card(Rank::Four, Suite::Clubs);
    let d = card(Rank::Five, Suite::Clubs);
    let x = card(Rank::Nine, Suite::Hearts);
    let y = card(Rank::Ten, Suite::Spades);
    let mut game = setup(vec![x, y], [a, b, c, d]);
    assert_eq!(game.dungeon.count_cards(), 2);
    let mut rng = rand::rng();
    game.try_avoid(&mut rng);
    assert!(game.already_avoided);
    assert_eq!(game.room.count_occupied_slots(), 4);
    assert_eq!(game.dungeon.count_cards(), 2);
    assert_eq!(total(&game), 6);
    // The next two draws were on top of the dungeon before the avoid, so the
    // new room starts with them.
    let slots = game.room.iter();
    assert_eq!(slots[0], Some(y));
    assert_eq!(slots[1], Some(x));
}

#[test]
fn try_avoid_keeps_every_card() {
    // With an empty dungeon the same four cards come back, only reordered.
    let a = card(Rank::Two, Suite::Clubs);
    let b = card(Rank::Three, Suite::Spades);
    let c = card(Rank::Four, Suite::Clubs);
    let d = card(Rank::Five, Suite::Spades);
    let mut game = setup(vec![], [a, b, c, d]);
    let mut rng = rand::rng();
    game.try_avoid(&mut rng);
    assert!(game.dungeon.is_empty());
    assert_eq!(room_values_sorted(&game), vec![2, 3, 4, 5]);
}

#[test]
fn try_avoid_is_idempotent_within_a_room() {
    // A second avoid without an intervening refill has no effect.
    let a = card(Rank::Two, Suite::Clubs);
    let b = card(Rank::Three, Suite::Spades);
    let c = card(Rank::Four, Suite::Clubs);
    let d = card(Rank::Five, Suite::Spades);
    let x = card(Rank::Nine, Suite::Hearts);
    let mut game = setup(vec![x], [a, b, c, d]);
    let mut rng = rand::rng();
    game.try_avoid(&mut rng);
    assert!(game.already_avoided);
    let room_before = game.room.iter();
    let dungeon_before = game.dungeon.count_cards();
    let health_before = game.health;
    game.try_avoid(&mut rng);
    assert_eq!(game.room.iter(), room_before);
    assert_eq!(game.dungeon.count_cards(), dungeon_before);
    assert_eq!(game.health, health_before);
    assert!(game.already_avoided);
}

#[test]
fn try_avoid_needs_a_full_room() {
    let a = card(Rank::Two, Suite::Clubs);
    let b = card(Rank::Three, Suite::Spades);
    let mut pile = Pile::from(vec![b, a]);
    let mut room = Room::empty();
    room.populate_from(&mut pile);
    let mut game = Game {
        dungeon: pile,
        slain: Vec::new(),
        room,
        health: 20,
        discard_count: 0,
        equipped: None,
        already_avoided: false,
        already_healed: false,
    };
    let mut rng = rand::rng();
    game.try_avoid(&mut rng);
    // A room of two cards cannot be avoided: nothing changed.
    assert!(!game.already_avoided);
    assert_eq!(game.room.iter(), vec![Some(a), Some(b), None, None]);
}

#[test]
fn win_is_reported_once_everything_is_cleared() {
    // An empty dungeon and an empty room report a win at any positive health.
    let game = Game {
        dungeon: Pile::from(vec![]),
        slain: Vec::new(),
        room: Room::empty(),
        health: 1,
        discard_count: 48,
        equipped: None,
        already_avoided: false,
        already_healed: false,
    };
    assert_eq!(game.check_game_over(), Some(GameOverState::Win));
}

#[test]
fn death_dominates_remaining_cards() {
    // Zero health reports death even though cards remain everywhere.
    let a = card(Rank::Two, Suite::Clubs);
    let b = card(Rank::Three, Suite::Spades);
    let c = card(Rank::Four, Suite::Clubs);
    let d = card(Rank::Five, Suite::Spades);
    let x = card(Rank::Nine, Suite::Hearts);
    let mut game = setup(vec![x], [a, b, c, d]);
    game.health = 0;
    assert_eq!(game.check_game_over(), Some(GameOverState::Death));
}

#[test]
fn fresh_game_is_in_progress() {
    let mut rng = rand::rng();
    let game = Game::start_new(&mut rng);
    assert_eq!(game.check_game_over(), None);
}

#[test]
fn cards_are_conserved_through_play() {
    // The conservation sum stays 48 through arbitrary play.
    let mut rng = rand::rng();
    let mut game = Game::start_new(&mut rng);
    assert_eq!(total(&game), 48);
    for round in 0..30 {
        if round % 7 == 0 {
            game.try_avoid(&mut rng);
        } else {
            game.interact_slot(round % 4);
        }
        assert_eq!(total(&game), 48);
        assert!(game.health <= 20);
        if game.check_game_over().is_some() {
            break;
        }
    }
}

#[test]
fn slain_values_never_increase() {
    // Whatever is played, the slain list stays non-increasing.
    let mut rng = rand::rng();
    let mut game = Game::start_new(&mut rng);
    for round in 0..40 {
        game.interact_slot(round % 4);
        for pair in game.slain.windows(2) {
            assert!(pair[1].value() <= pair[0].value());
        }
        if game.check_game_over().is_some() {
            break;
        }
    }
}
