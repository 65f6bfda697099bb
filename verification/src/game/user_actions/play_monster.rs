//! Playing a monster: from the hand onto a slot of the field.

use crate::collection::types::PlayTarget;
use crate::error::{Fault, Result};
use crate::game::action::{actions_view, Action, ActionView};
use crate::game::card::{
    contains_keyword, has_keyword, CardTypeInstance, CardTypeView, CardView, Keyword, MonsterView,
};
use crate::game::effects::{clone_effects, effects_view, EffectView};
use crate::game::logic::carried_out;
use crate::game::logic::summon::slot_taken;
use crate::game::model::{count, entity_index, player_index, start, GameView, Outcome, Selector};
use crate::game::player::PlayerInstance;
use crate::game::types::{InstanceId, Location, PlayerId};
use crate::game::utils::{
    all_with_chosen_target, map_all_to_choosen_target, match_entity, matches_entity,
};
use crate::game::{record, Game};
use vstd::prelude::*;

verus! {

/// What is wrong with the chosen target `id`, if anything.
pub open spec fn target_fault(g: GameView, target: PlayTarget, id: InstanceId) -> Option<Fault> {
    match entity_index(g.entities, id) {
        None => Some(Fault::CardNotFound(id)),
        Some(i) => if matches_entity(g.entities[i], target.matcher) {
            None
        } else {
            Some(Fault::TargetMismatch)
        },
    }
}

/// What is wrong with the first of `selecteds` that is not a fit, if there is one.
pub open spec fn first_unfit(g: GameView, target: PlayTarget, selecteds: Seq<InstanceId>) -> Option<
    Fault,
>
    decreases selecteds.len(),
{
    if selecteds.len() == 0 {
        None
    } else {
        match first_unfit(g, target, selecteds.drop_last()) {
            Some(f) => Some(f),
            None => target_fault(g, target, selecteds.last()),
        }
    }
}

/// What is wrong with the choice `selecteds` under the constraint `target`, if anything.
///
/// A strict constraint wants exactly its amount of targets, another one at most
/// that many. Each target must be an entity that the matcher accepts.
pub open spec fn target_check(g: GameView, target: PlayTarget, selecteds: Seq<InstanceId>) -> Option<
    Fault,
> {
    if target.strict && selecteds.len() != target.amount {
        Some(Fault::WrongTargetCount(target.amount))
    } else if selecteds.len() > target.amount {
        Some(Fault::TooManyTargets(target.amount))
    } else {
        first_unfit(g, target, selecteds)
    }
}

/// Checks the choice `selecteds` against the constraint `target`.
pub fn validate_target(
    target: PlayTarget,
    selecteds: &Vec<InstanceId>,
    owner: PlayerId,
    context: &Game,
) -> (r: Result<()>)
    ensures
        match r {
            Ok(_) => target_check(context@, target, selecteds@) is None,
            Err(e) => target_check(context@, target, selecteds@) is Some && e@ == target_check(
                context@,
                target,
                selecteds@,
            )->0.error_view(),
        },
{
    if target.strict && selecteds.len() != target.amount {
        return Err(Fault::WrongTargetCount(target.amount).to_error());
    } else if selecteds.len() > target.amount {
        return Err(Fault::TooManyTargets(target.amount).to_error());
    }
    let mut k: usize = 0;
    while k < selecteds.len()
        invariant
            k <= selecteds.len(),
            !(target.strict && selecteds.len() != target.amount),
            selecteds.len() <= target.amount,
            first_unfit(context@, target, selecteds@.take(k as int)) is None,
        decreases selecteds.len() - k,
    {
        proof {
            assert(selecteds@.take(k + 1).drop_last() =~= selecteds@.take(k as int));
            assert(selecteds@.take(k + 1).last() == selecteds@[k as int]);
        }
        let fault = match context.find_first(Selector::WithId(selecteds[k])) {
            None => Some(Fault::CardNotFound(selecteds[k])),
            Some(i) => {
                assert(context@.entities[i as int] == context.entities@[i as int]@);
                if match_entity(owner, &context.entities[i], target.matcher) {
                    None
                } else {
                    Some(Fault::TargetMismatch)
                }
            },
        };
        if let Some(f) = fault {
            proof {
                assert(target_fault(context@, target, selecteds@[k as int]) == Some(f));
                assert(first_unfit(context@, target, selecteds@.take(k as int + 1)) == Some(f));
                lemma_first_unfit_stays(context@, target, selecteds@, k as int + 1);
            }
            return Err(f.to_error());
        }
        k += 1;
    }
    assert(selecteds@.take(k as int) =~= selecteds@);
    Ok(())
}

/// The first unfit target of a front part is the first unfit target of the whole.
pub proof fn lemma_first_unfit_stays(
    g: GameView,
    target: PlayTarget,
    selecteds: Seq<InstanceId>,
    k: int,
)
    requires
        0 <= k <= selecteds.len(),
        first_unfit(g, target, selecteds.take(k)) is Some,
    ensures
        first_unfit(g, target, selecteds) == first_unfit(g, target, selecteds.take(k)),
    decreases selecteds.len() - k,
{
    if k == selecteds.len() {
        assert(selecteds.take(k) =~= selecteds);
    } else {
        assert(selecteds.drop_last().take(k) =~= selecteds.take(k));
        lemma_first_unfit_stays(g, target, selecteds.drop_last(), k);
    }
}

/// The effects that a card queues when played: aimed at the chosen targets where
/// the card asks for a choice and one was made, else as they stand.
pub open spec fn chosen_effects(
    play_target: Option<PlayTarget>,
    effects: Seq<EffectView>,
    selected: Option<Seq<InstanceId>>,
) -> Seq<EffectView> {
    match (play_target, selected) {
        (Some(_), Some(s)) => all_with_chosen_target(effects, s),
        _ => effects,
    }
}

/// What is wrong with a choice of targets for the card `c`, if anything.
pub open spec fn choice_check(g: GameView, c: CardView, selected: Option<Seq<InstanceId>>) -> Option<
    Fault,
> {
    match (c.play_target, selected) {
        (Some(t), Some(s)) => target_check(g, t, s),
        _ => None,
    }
}

/// Why `owner` may not play the monster `card_id` on the slot `position`, if anything forbids it.
pub open spec fn play_monster_check(
    g: GameView,
    owner: PlayerId,
    card_id: InstanceId,
    position: usize,
    selected: Option<Seq<InstanceId>>,
) -> Option<Fault> {
    if count(g.entities, Selector::FieldOf(owner)) >= 8 {
        Some(Fault::BoardFull)
    } else if slot_taken(g.entities, owner, position) {
        Some(Fault::SlotOccupied)
    } else {
        match entity_index(g.entities, card_id) {
            None => Some(Fault::CardNotFound(card_id)),
            Some(i) => {
                let c = g.entities[i];
                if c.location != Location::Hand {
                    Some(Fault::NotInHand)
                } else {
                    match player_index(g.players, owner) {
                        None => Some(Fault::PlayerNotFound(owner)),
                        Some(pi) => if g.players[pi].mana < c.cost {
                            Some(Fault::NotEnoughMana)
                        } else {
                            match c.card_type {
                                CardTypeView::Spell(_) => Some(Fault::SpellPlayedAsMonster),
                                CardTypeView::Monster(_) => choice_check(g, c, selected),
                            }
                        },
                    }
                }
            },
        }
    }
}

/// What playing the monster comes to. Where something forbids it, nothing changes.
/// Else the cost is paid, the card lands on the slot, awake only with Charge, and
/// what it does on play is queued.
pub open spec fn play_monster_outcome(
    g: GameView,
    owner: PlayerId,
    card_id: InstanceId,
    position: usize,
    selected: Option<Seq<InstanceId>>,
) -> Outcome {
    match play_monster_check(g, owner, card_id, position, selected) {
        Some(f) => start(g).stop(f),
        None => {
            let i = entity_index(g.entities, card_id)->0;
            let c = g.entities[i];
            let m = c.card_type->Monster_0;
            let pi = player_index(g.players, owner)->0;
            let p = g.players[pi];
            let g1 = g.with_player(pi, PlayerInstance { mana: (p.mana - c.cost) as usize, ..p });
            let landed = c.at(Location::Field(position));
            let placed = if has_keyword(m.keywords, Keyword::Charge) {
                landed.with_monster(MonsterView { asleep: false, ..m })
            } else {
                landed
            };
            let g2 = g1.with_entity(i, placed);
            let on_play = chosen_effects(c.play_target, m.on_play, selected);
            let o = start(g2).record(
                ActionView::Summon {
                    source: Location::Hand,
                    destination: position,
                    target: c,
                    owner,
                },
            );
            if on_play.len() > 0 {
                o.at(g2.enqueue_all(on_play)).record(ActionView::TriggerOnPlay(card_id))
            } else {
                o
            }
        },
    }
}

/// The value of an optional choice of targets.
pub open spec fn selection_view(selected: Option<Vec<InstanceId>>) -> Option<Seq<InstanceId>> {
    match selected {
        Some(s) => Some(s@),
        None => None,
    }
}

/// Plays the monster `card_id` of the hand on the slot `position`.
pub fn play_monster(
    context: &mut Game,
    owner: PlayerId,
    card_id: InstanceId,
    position: usize,
    selected_targets: Option<Vec<InstanceId>>,
) -> (r: Result<Vec<Action>>)
    ensures
        carried_out(
            final(context)@,
            r,
            play_monster_outcome(
                old(context)@,
                owner,
                card_id,
                position,
                selection_view(selected_targets),
            ),
        ),
{
    let mut actions: Vec<Action> = Vec::new();
    assert(actions_view(actions@) =~= Seq::<ActionView>::empty());
    if context.find_ids(Selector::FieldOf(owner)).len() >= 8 {
        return Err(Fault::BoardFull.to_error());
    }
    if context.find_first(Selector::SlotOf(owner, position)).is_some() {
        return Err(Fault::SlotOccupied.to_error());
    }
    let i = match context.find_first(Selector::WithId(card_id)) {
        None => {
            return Err(Fault::CardNotFound(card_id).to_error());
        },
        Some(i) => i,
    };
    assert(context@.entities[i as int] == context.entities@[i as int]@);
    if !matches!(context.entities[i].location, Location::Hand) {
        return Err(Fault::NotInHand.to_error());
    }
    let card_cost = context.entities[i].cost;
    let pi = match context.find_player(owner) {
        None => {
            return Err(Fault::PlayerNotFound(owner).to_error());
        },
        Some(pi) => pi,
    };
    let p = context.players[pi];
    if p.mana < card_cost {
        return Err(Fault::NotEnoughMana.to_error());
    }
    let play_target = context.entities[i].play_target;
    let (on_play_effect, charge, attack, hp, max_hp, attack_count) =
        match &context.entities[i].card_type {
        CardTypeInstance::Spell(_) => {
            return Err(Fault::SpellPlayedAsMonster.to_error());
        },
        CardTypeInstance::Monster(monster) => {
            let effects = match (play_target, &selected_targets) {
                (Some(target), Some(selecteds)) => {
                    match validate_target(target, selecteds, owner, context) {
                        Err(e) => {
                            return Err(e);
                        },
                        Ok(()) => map_all_to_choosen_target(&monster.on_play, selecteds),
                    }
                },
                _ => clone_effects(&monster.on_play),
            };
            (
                effects,
                contains_keyword(&monster.keywords, Keyword::Charge),
                monster.attack,
                monster.hp,
                monster.max_hp,
                monster.attack_count,
            )
        },
    };
    context.set_player(
        pi,
        PlayerInstance {
            player_id: p.player_id,
            hp: p.hp,
            mana: p.mana - card_cost,
            base_mana: p.base_mana,
            move_count: p.move_count,
            max_move: p.max_move,
            archetype: p.archetype,
        },
    );
    let shown = context.entities[i].clone();
    record(
        &mut actions,
        Action::Summon { source: Location::Hand, destination: position, target: shown, owner },
    );
    context.set_location(i, Location::Field(position));
    if charge {
        assert(context@.entities[i as int] == context.entities@[i as int]@);
        context.set_monster(i, attack, hp, max_hp, false, attack_count);
    }
    proof {
        let g = old(context)@;
        let c = g.entities[i as int];
        let m = c.card_type->Monster_0;
        let landed = c.at(Location::Field(position));
        let placed = if has_keyword(m.keywords, Keyword::Charge) {
            landed.with_monster(MonsterView { asleep: false, ..m })
        } else {
            landed
        };
        assert(context@.entities =~= g.entities.update(i as int, placed));
        assert(effects_view(on_play_effect@) == chosen_effects(
            c.play_target,
            m.on_play,
            selection_view(selected_targets),
        ));
    }
    if on_play_effect.len() > 0 {
        record(&mut actions, Action::TriggerOnPlay(card_id));
        context.enqueue_copies(&on_play_effect);
    }
    Ok(actions)
}

} // verus!
