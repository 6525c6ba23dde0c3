//! Engine for a solitaire dungeon-crawling card game.
//!
//! A shuffled dungeon deck deals cards four at a time into a room; the player
//! resolves them one by one (drink potions, equip weapons, fight monsters) or
//! avoids the whole room once per turn, and tries to survive until the deck
//! and the room are empty.

pub mod card;
pub mod game;
pub mod parse;
pub mod pile;
pub mod room;
mod shuffling;
