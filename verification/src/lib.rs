//! A two-player card battle, rules and all: creatures on a board of eight slots,
//! spells, a mana economy and turns.
//!
//! The state of a game is a [`Game`]. Players give commands; a command changes
//! what it must and puts effects on a queue for everything else; draining the
//! queue runs the effects in the order in which they were queued and reports
//! what happened as a list of [`game::action::Action`]s.

pub mod collection;
pub mod error;
pub mod game;
pub mod ia;
pub mod session;
use crate::collection::collection_of;
use crate::collection::types::{templates_view, CardTemplate, TemplateId};
use crate::collection::Archetype;
use crate::error::Result;
use crate::game::action::{actions_view, Action, ActionView};
use crate::game::types::{InstanceId, PlayerId};
use crate::game::user_actions::play_monster::selection_view;
use crate::game::{played, played_out, settle, Command};
use vstd::prelude::*;

pub use crate::collection::Race;
pub use crate::game::view::PublicGameState;
pub use crate::game::Game;

verus! {

/// A deck as a player hands it in: the ids of its cards and what it is built around.
#[derive(Debug)]
pub struct UserDeck {
    pub cards: Vec<TemplateId>,
    pub archetype: Archetype,
}

/// What a command gives back to the one who gave it: what happened, and the
/// state as they see it now.
#[derive(Debug)]
pub struct GameViewResponse {
    pub actions: Vec<Action>,
    pub game_view: PublicGameState,
}

/// Plays the monster `card_id` from the hand of `player` on the slot `position`,
/// drains the queue, and shows the state to both players.
pub fn play_monster(
    game_state: Game,
    player: PlayerId,
    card_id: usize,
    position: usize,
    targets: Option<Vec<InstanceId>>,
) -> (r: Result<(Vec<Action>, Game)>)
    ensures
        played_out(
            r,
            played(
                game_state@,
                Command::PlayMonster {
                    owner: player,
                    card_id,
                    position,
                    selected: selection_view(targets),
                },
                player,
            ),
        ),
{
    let mut game_state = game_state;
    match game_state.play_monster(player, card_id, position, targets) {
        Err(e) => Err(e),
        Ok(actions) => settle(game_state, actions, player),
    }
}

/// Casts the spell `card_id` from the hand of `player`, drains the queue, and
/// shows the state to both players.
pub fn play_spell(
    game_state: Game,
    player: PlayerId,
    card_id: usize,
    targets: Option<Vec<InstanceId>>,
) -> (r: Result<(Vec<Action>, Game)>)
    ensures
        played_out(
            r,
            played(
                game_state@,
                Command::PlaySpell { owner: player, card_id, selected: selection_view(targets) },
                player,
            ),
        ),
{
    let mut game_state = game_state;
    match game_state.play_spell(player, card_id, targets) {
        Err(e) => Err(e),
        Ok(()) => {
            let actions: Vec<Action> = Vec::new();
            assert(actions_view(actions@) =~= Seq::<ActionView>::empty());
            settle(game_state, actions, player)
        },
    }
}

/// Ends the turn of `player`, and shows the state to both players.
pub fn end_turn(game_state: Game, player: PlayerId) -> (r: Result<(Vec<Action>, Game)>)
    ensures
        played_out(r, played(game_state@, Command::EndTurn { player }, player)),
{
    let mut game_state = game_state;
    match game_state.end_turn(player) {
        Err(e) => Err(e),
        Ok(actions) => settle(game_state, actions, player),
    }
}

/// Attacks `target` with the monster `initiator` of `player`, drains the queue,
/// and shows the state to both players.
pub fn attack(game_state: Game, player: PlayerId, initiator: usize, target: usize) -> (r: Result<
    (Vec<Action>, Game),
>)
    ensures
        played_out(
            r,
            played(game_state@, Command::Attack { player, initiator, target }, player),
        ),
{
    let mut game_state = game_state;
    match game_state.attack(player, initiator, target) {
        Err(e) => Err(e),
        Ok(()) => {
            let actions: Vec<Action> = Vec::new();
            assert(actions_view(actions@) =~= Seq::<ActionView>::empty());
            settle(game_state, actions, player)
        },
    }
}

/// Moves the monster `card_id` of `player` to the slot `position`, drains the
/// queue, and shows the state to both players.
pub fn move_card(game_state: Game, player: PlayerId, card_id: usize, position: usize) -> (r: Result<
    (Vec<Action>, Game),
>)
    ensures
        played_out(
            r,
            played(game_state@, Command::Move { player, card_id, position }, player),
        ),
{
    let mut game_state = game_state;
    match game_state.move_card(player, card_id, position) {
        Err(e) => Err(e),
        Ok(()) => {
            let actions: Vec<Action> = Vec::new();
            assert(actions_view(actions@) =~= Seq::<ActionView>::empty());
            settle(game_state, actions, player)
        },
    }
}

/// The cards that a deck built around `archetype` may hold.
pub fn get_collection(archetype: Archetype) -> (r: Vec<CardTemplate>)
    ensures
        templates_view(r@) == collection_of(archetype),
{
    collection::get_collection(archetype)
}

} // verus!
