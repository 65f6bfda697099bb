//! A player's side of the game.

use crate::collection::Archetype;
use crate::game::types::PlayerId;
use vstd::prelude::*;

verus! {

/// One of the two players of a game.
#[derive(Clone, Copy, Debug)]
pub struct PlayerInstance {
    pub player_id: PlayerId,
    pub hp: usize,
    pub mana: usize,
    pub base_mana: usize,
    pub move_count: usize,
    pub max_move: usize,
    pub archetype: Archetype,
}

impl PlayerInstance {
    /// A player at full health whose mana is filled to `base_mana`.
    pub fn new(id: usize, base_mana: usize, archetype: Archetype) -> (p: Self)
        ensures
            p == (PlayerInstance {
                player_id: id,
                hp: 30,
                mana: base_mana,
                base_mana,
                move_count: 3,
                max_move: 3,
                archetype,
            }),
    {
        Self {
            player_id: id,
            hp: 30,
            mana: base_mana,
            base_mana,
            archetype,
            max_move: 3,
            move_count: 3,
        }
    }
}

} // verus!
