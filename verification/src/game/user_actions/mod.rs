//! The commands that put a card of the hand into play.

pub mod play_monster;
pub mod play_spell;
