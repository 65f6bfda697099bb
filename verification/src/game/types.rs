//! Identifiers and places shared by the whole engine.

use vstd::prelude::*;

verus! {

/// Identifies one card instance within a game.
pub type InstanceId = usize;

/// Identifies one player within a game.
pub type PlayerId = usize;

/// Moments of a monster's life that can trigger effects.
#[derive(Clone, Copy, PartialEq, Eq, Debug, Structural)]
pub enum Event {
    Death,
    EnterPlay,
    Attack,
    IsAttacked,
}

/// Where a card currently is. A field location carries its slot.
#[derive(Clone, Copy, PartialEq, Eq, Debug, Structural)]
pub enum Location {
    Deck,
    Hand,
    Field(usize),
    Graveyard,
}

/// The number of slots on one side of the board.
pub const FIELD_SLOTS: usize = 8;

/// The most cards a hand can hold.
pub const HAND_LIMIT: usize = 10;

/// The most health a player can have.
pub const PLAYER_MAX_HP: usize = 30;

/// The most mana a turn can grow a player's base mana to.
pub const MAX_BASE_MANA: usize = 10;

/// The moves a player gets each turn.
pub const MOVES_PER_TURN: usize = 3;

} // verus!
