//! Casting a spell: from the hand to the graveyard, its effects to the queue.

use crate::error::{Fault, Result};
use crate::game::card::{CardTypeInstance, CardTypeView};
use crate::game::effects::clone_effects;
use crate::game::model::{entity_index, player_index, GameView, Selector};
use crate::game::player::PlayerInstance;
use crate::game::types::{InstanceId, Location, PlayerId};
use crate::game::user_actions::play_monster::{
    choice_check, chosen_effects, selection_view, validate_target,
};
use crate::game::utils::map_all_to_choosen_target;
use crate::game::Game;
use vstd::prelude::*;

verus! {

/// Why `owner` may not cast the spell `card_id`, if anything forbids it.
pub open spec fn play_spell_check(
    g: GameView,
    owner: PlayerId,
    card_id: InstanceId,
    selected: Option<Seq<InstanceId>>,
) -> Option<Fault> {
    match entity_index(g.entities, card_id) {
        None => Some(Fault::CardNotFound(card_id)),
        Some(i) => {
            let c = g.entities[i];
            if c.location != Location::Hand {
                Some(Fault::NotInHand)
            } else {
                match player_index(g.players, owner) {
                    None => Some(Fault::PlayerNotFound(owner)),
                    Some(pi) => if g.players[pi].mana < c.cost {
                        Some(Fault::NotEnoughMana)
                    } else {
                        match c.card_type {
                            CardTypeView::Monster(_) => Some(Fault::MonsterCastAsSpell),
                            CardTypeView::Spell(_) => choice_check(g, c, selected),
                        }
                    },
                }
            }
        },
    }
}

/// The state after `owner` has cast the spell `card_id`: the cost is paid, the
/// card lies in the graveyard, and its effects wait at the back of the queue.
pub open spec fn play_spell_result(
    g: GameView,
    owner: PlayerId,
    card_id: InstanceId,
    selected: Option<Seq<InstanceId>>,
) -> GameView {
    let i = entity_index(g.entities, card_id)->0;
    let c = g.entities[i];
    let s = c.card_type->Spell_0;
    let pi = player_index(g.players, owner)->0;
    let p = g.players[pi];
    g.enqueue_all(chosen_effects(c.play_target, s.effect, selected)).with_player(
        pi,
        PlayerInstance { mana: (p.mana - c.cost) as usize, ..p },
    ).with_entity(i, c.at(Location::Graveyard))
}

/// Casts the spell `card_id` of the hand.
pub fn play_spell(
    context: &mut Game,
    owner: PlayerId,
    card_id: usize,
    selected_targets: Option<Vec<InstanceId>>,
) -> (r: Result<()>)
    ensures
        match r {
            Ok(_) => play_spell_check(
                old(context)@,
                owner,
                card_id,
                selection_view(selected_targets),
            ) is None && final(context)@ == play_spell_result(
                old(context)@,
                owner,
                card_id,
                selection_view(selected_targets),
            ),
            Err(e) => play_spell_check(
                old(context)@,
                owner,
                card_id,
                selection_view(selected_targets),
            ) is Some && e@ == play_spell_check(
                old(context)@,
                owner,
                card_id,
                selection_view(selected_targets),
            )->0.error_view() && final(context)@ == old(context)@,
        },
{
    let i = match context.find_first(Selector::WithId(card_id)) {
        None => {
            return Err(Fault::CardNotFound(card_id).to_error());
        },
        Some(i) => i,
    };
    assert(context@.entities[i as int] == context.entities@[i as int]@);
    if !matches!(context.entities[i].location, Location::Hand) {
        return Err(Fault::NotInHand.to_error());
    }
    let card_cost = context.entities[i].cost;
    let pi = match context.find_player(owner) {
        None => {
            return Err(Fault::PlayerNotFound(owner).to_error());
        },
        Some(pi) => pi,
    };
    let p = context.players[pi];
    if p.mana < card_cost {
        return Err(Fault::NotEnoughMana.to_error());
    }
    let play_target = context.entities[i].play_target;
    let effects = match &context.entities[i].card_type {
        CardTypeInstance::Monster(_) => {
            return Err(Fault::MonsterCastAsSpell.to_error());
        },
        CardTypeInstance::Spell(spell_instance) => {
            match (play_target, &selected_targets) {
                (Some(target), Some(selecteds)) => {
                    match validate_target(target, selecteds, owner, context) {
                        Err(e) => {
                            return Err(e);
                        },
                        Ok(()) => map_all_to_choosen_target(&spell_instance.effect, selecteds),
                    }
                },
                _ => clone_effects(&spell_instance.effect),
            }
        },
    };
    context.enqueue_copies(&effects);
    context.set_player(
        pi,
        PlayerInstance {
            player_id: p.player_id,
            hp: p.hp,
            mana: p.mana - card_cost,
            base_mana: p.base_mana,
            move_count: p.move_count,
            max_move: p.max_move,
            archetype: p.archetype,
        },
    );
    context.set_location(i, Location::Graveyard);
    Ok(())
}

} // verus!
