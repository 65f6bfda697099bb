//! The engine's own player: how it reads the game and what it may do.
//!
//! A turn of the engine is an attack pass, a summon pass and a second attack
//! pass, and then the end of the turn. Nothing is searched: attacks are ranked
//! by points that are counted in whole numbers, and the cards to play are
//! chosen so that the most mana is spent.

pub mod attack;
pub mod summon;
use crate::error::{Fault, Result};
use crate::game::action::{lemma_actions_add, Action};
use crate::game::logic::carried_out;
use crate::game::model::{opponent_of, player_index, start, GameView, Outcome};
use crate::game::types::PlayerId;
use crate::game::{and_then, end_turn_outcome, DRAIN_LIMIT, Game};
use crate::ia::attack::{ai_attack_sequence, attack_pass};
use crate::ia::summon::{summon_max_cards, summon_pass};
use vstd::prelude::*;

verus! {

/// The health at or below which a hero counts as in danger: half of the full health.
pub const HP_THRESHOLD: usize = 15;

/// The full health of a hero.
pub const MAX_HP: usize = 30;

/// The mood in which the engine plays a turn.
#[derive(Clone, Copy, Debug, PartialEq, Eq, Structural)]
pub enum IaBehavior {
    /// Trade well and keep the board.
    Control,
    /// The own hero is in danger: remove threats.
    Survival,
    /// The opposing hero is in danger: finish the game.
    Aggressive,
}

/// The mood that the healths `ai_hp` and `opponent_hp` of the two heroes call for.
pub open spec fn mode_for(ai_hp: usize, opponent_hp: usize) -> IaBehavior {
    if opponent_hp <= 15 {
        IaBehavior::Aggressive
    } else if ai_hp <= 15 {
        IaBehavior::Survival
    } else {
        IaBehavior::Control
    }
}

/// The mood in which `player_id` plays the state `g`.
pub open spec fn game_mode(g: GameView, player_id: PlayerId) -> std::result::Result<
    IaBehavior,
    Fault,
> {
    match player_index(g.players, player_id) {
        None => Err(Fault::AiPlayerNotFound(player_id)),
        Some(i) => match opponent_of(g.players, player_id) {
            None => Err(Fault::AiOpponentNotFound(player_id)),
            Some(q) => match player_index(g.players, q) {
                None => Err(Fault::AiOpponentNotFound(player_id)),
                Some(j) => Ok(mode_for(g.players[i].hp, g.players[j].hp)),
            },
        },
    }
}

/// Decides the mood in which `player_id` plays its turn.
pub fn determine_game_mode(game: &Game, player_id: PlayerId) -> (r: Result<IaBehavior>)
    ensures
        match r {
            Ok(mode) => game_mode(game@, player_id) == Ok::<IaBehavior, Fault>(mode),
            Err(e) => game_mode(game@, player_id) is Err && e@ == game_mode(
                game@,
                player_id,
            )->Err_0.error_view(),
        },
{
    let ai_hp = match game.find_player(player_id) {
        None => {
            return Err(Fault::AiPlayerNotFound(player_id).to_error());
        },
        Some(i) => game.players[i].hp,
    };
    let opponent_id = match get_opponent_id(game, player_id) {
        Err(e) => {
            return Err(e);
        },
        Ok(q) => q,
    };
    let opponent_hp = match game.find_player(opponent_id) {
        None => {
            return Err(Fault::AiOpponentNotFound(player_id).to_error());
        },
        Some(j) => game.players[j].hp,
    };
    if opponent_hp <= HP_THRESHOLD {
        Ok(IaBehavior::Aggressive)
    } else if ai_hp <= HP_THRESHOLD {
        Ok(IaBehavior::Survival)
    } else {
        Ok(IaBehavior::Control)
    }
}

/// The id of the player against whom `player_id` plays.
pub fn get_opponent_id(game: &Game, player_id: PlayerId) -> (r: Result<PlayerId>)
    ensures
        match r {
            Ok(q) => opponent_of(game@.players, player_id) == Some(q),
            Err(e) => opponent_of(game@.players, player_id) is None && e@
                == Fault::AiOpponentNotFound(player_id).error_view(),
        },
{
    match game.opponent_id(player_id) {
        None => Err(Fault::AiOpponentNotFound(player_id).to_error()),
        Some(q) => Ok(q),
    }
}

/// What the moves of `player_id` in its turn come to: an attack pass, the
/// summon pass, and a second attack pass for what the summon pass brought.
pub open spec fn ai_moves_outcome(g: GameView, player_id: PlayerId) -> Outcome {
    match game_mode(g, player_id) {
        Err(f) => start(g).stop(f),
        Ok(mode) => {
            let o1 = attack_pass(g, player_id, mode, DRAIN_LIMIT as nat);
            let o2 = and_then(o1, summon_pass(o1.game, player_id));
            and_then(o2, attack_pass(o2.game, player_id, mode, DRAIN_LIMIT as nat))
        },
    }
}

/// What a whole turn of `player_id` comes to: its moves, and the end of its turn.
pub open spec fn ai_turn_outcome(g: GameView, player_id: PlayerId) -> Outcome {
    let o = ai_moves_outcome(g, player_id);
    and_then(o, end_turn_outcome(o.game, player_id))
}

/// Makes the moves of `player_id` in its turn, and reports what happened.
pub fn ai_moves(game_state: &mut Game, player_id: PlayerId) -> (r: Result<Vec<Action>>)
    ensures
        carried_out(final(game_state)@, r, ai_moves_outcome(old(game_state)@, player_id)),
{
    let behavior = match determine_game_mode(game_state, player_id) {
        Err(e) => {
            return Err(e);
        },
        Ok(b) => b,
    };
    let mut all_actions = match ai_attack_sequence(game_state, player_id, behavior) {
        Err(e) => {
            return Err(e);
        },
        Ok(a) => a,
    };
    let mut summon_actions = match summon_max_cards(game_state, player_id) {
        Err(e) => {
            return Err(e);
        },
        Ok(a) => a,
    };
    proof {
        lemma_actions_add(all_actions@, summon_actions@);
    }
    all_actions.append(&mut summon_actions);
    let mut attack_actions_2 = match ai_attack_sequence(game_state, player_id, behavior) {
        Err(e) => {
            return Err(e);
        },
        Ok(a) => a,
    };
    proof {
        lemma_actions_add(all_actions@, attack_actions_2@);
    }
    all_actions.append(&mut attack_actions_2);
    Ok(all_actions)
}

/// Plays a whole turn of `player_id`: its moves, and the end of its turn.
pub fn ai_play_turn(game_state: &mut Game, player_id: PlayerId) -> (r: Result<Vec<Action>>)
    ensures
        carried_out(final(game_state)@, r, ai_turn_outcome(old(game_state)@, player_id)),
{
    let mut all_actions = match ai_moves(game_state, player_id) {
        Err(e) => {
            return Err(e);
        },
        Ok(a) => a,
    };
    let mut end_turn_actions = match game_state.end_turn(player_id) {
        Err(e) => {
            return Err(e);
        },
        Ok(a) => a,
    };
    proof {
        lemma_actions_add(all_actions@, end_turn_actions@);
    }
    all_actions.append(&mut end_turn_actions);
    Ok(all_actions)
}

} // verus!
