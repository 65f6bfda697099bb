//! What an effect does to one recipient.
//!
//! Every effect that reaches several recipients treats them one after the
//! other, in the order in which they were resolved. This file says, for each
//! kind, what happens to one recipient, and [`apply_all`] strings the steps
//! together. A step that fails stops the effect where it stands: what was done
//! to earlier recipients stays done.

use crate::collection::types::{CardTemplate, CardTemplateView};
use crate::error::{Fault, Result};
use crate::game::action::{actions_view, Action, ActionView};
use crate::game::card::{CardTypeInstance, CardTypeView, MonsterView};
use crate::game::effects::{Effect, EffectView, Target, TargetView};
use crate::game::logic::summon::{summon_one, summon_step};
use crate::game::model::{
    count, entity_index, first_accepted, is_player, opponent_of, player_index, GameView, Outcome,
    Selector,
};
use crate::game::player::PlayerInstance;
use crate::game::types::{InstanceId, Location, PlayerId};
use crate::game::{record, Game};
use vstd::prelude::*;

verus! {

/// One kind of step, with what it needs besides the recipient.
#[allow(inconsistent_fields)]
pub enum Op<'a> {
    DamagePlayer { amount: usize },
    DamageEntity { initiator: InstanceId, amount: usize },
    Destroy,
    HealPlayer { amount: usize },
    HealEntity { amount: usize },
    Boost { attack: usize, hp: usize },
    IncreaseMaxMana { amount: usize },
    RefreshMana { amount: usize },
    Draw { amount: usize },
    Strike { initiator: InstanceId },
    Summon { template: &'a CardTemplate },
}

/// The mathematical value of an [`Op`].
#[allow(inconsistent_fields)]
pub ghost enum OpView {
    DamagePlayer { amount: usize },
    DamageEntity { initiator: InstanceId, amount: usize },
    Destroy,
    HealPlayer { amount: usize },
    HealEntity { amount: usize },
    Boost { attack: usize, hp: usize },
    IncreaseMaxMana { amount: usize },
    RefreshMana { amount: usize },
    Draw { amount: usize },
    Strike { initiator: InstanceId },
    Summon { template: CardTemplateView },
}

impl<'a> View for Op<'a> {
    type V = OpView;

    open spec fn view(&self) -> OpView {
        match self {
            Op::DamagePlayer { amount } => OpView::DamagePlayer { amount: *amount },
            Op::DamageEntity { initiator, amount } => OpView::DamageEntity {
                initiator: *initiator,
                amount: *amount,
            },
            Op::Destroy => OpView::Destroy,
            Op::HealPlayer { amount } => OpView::HealPlayer { amount: *amount },
            Op::HealEntity { amount } => OpView::HealEntity { amount: *amount },
            Op::Boost { attack, hp } => OpView::Boost { attack: *attack, hp: *hp },
            Op::IncreaseMaxMana { amount } => OpView::IncreaseMaxMana { amount: *amount },
            Op::RefreshMana { amount } => OpView::RefreshMana { amount: *amount },
            Op::Draw { amount } => OpView::Draw { amount: *amount },
            Op::Strike { initiator } => OpView::Strike { initiator: *initiator },
            Op::Summon { template } => OpView::Summon { template: template@ },
        }
    }
}

/// Health `hp` after `amount` damage: never below zero.
pub open spec fn damaged(hp: usize, amount: usize) -> usize {
    if hp >= amount {
        (hp - amount) as usize
    } else {
        0
    }
}

/// Health `hp` after healing `amount` under the cap `cap`: never above the cap,
/// and unchanged where it already reached it.
pub open spec fn healed(hp: usize, amount: usize, cap: usize) -> usize {
    if hp >= cap {
        hp
    } else if hp + amount >= cap {
        cap
    } else {
        (hp + amount) as usize
    }
}

/// Mana `mana` after `amount` is given back under the cap `base`.
pub open spec fn refreshed(mana: usize, amount: usize, base: usize) -> usize {
    if mana + amount >= base {
        base
    } else {
        (mana + amount) as usize
    }
}

/// How much of `amount` a refresh really gave.
pub open spec fn refresh_gain(mana: usize, amount: usize, base: usize) -> usize {
    if mana + amount >= base {
        if base >= mana {
            (base - mana) as usize
        } else {
            0
        }
    } else {
        amount
    }
}

/// Damage to the player `t`. A player who falls to zero loses: the win of the
/// opponent is queued, not yet declared.
#[verifier::opaque]
pub open spec fn damage_player(o: Outcome, t: PlayerId, amount: usize) -> Outcome {
    match player_index(o.game.players, t) {
        None => o.stop(Fault::PlayerNotFound(t)),
        Some(i) => {
            let p = o.game.players[i];
            let hp = damaged(p.hp, amount);
            let g1 = o.game.with_player(i, PlayerInstance { hp, ..p });
            if hp == 0 {
                match opponent_of(g1.players, t) {
                    None => o.at(g1).stop(Fault::OpponentNotFound(t)),
                    Some(w) => o.at(g1.enqueue(EffectView::Win(w))).record(
                        ActionView::ReceiveDamage { target: t, amount },
                    ),
                }
            } else {
                o.at(g1).record(ActionView::ReceiveDamage { target: t, amount })
            }
        },
    }
}

/// Damage to the monster `t`. A monster that falls to zero is not destroyed on
/// the spot: its destruction is queued.
#[verifier::opaque]
pub open spec fn damage_entity(
    o: Outcome,
    t: InstanceId,
    initiator: InstanceId,
    amount: usize,
) -> Outcome {
    match entity_index(o.game.entities, t) {
        None => o.stop(Fault::CardNotFound(t)),
        Some(i) => {
            let c = o.game.entities[i];
            match c.card_type {
                CardTypeView::Spell(_) => o.stop(Fault::DamageSpell),
                CardTypeView::Monster(m) => {
                    let hp = damaged(m.hp, amount);
                    let g1 = o.game.with_entity(i, c.with_monster(MonsterView { hp, ..m }));
                    let g2 = if hp == 0 {
                        g1.enqueue(
                            EffectView::Destroy { initiator, target: TargetView::Id(t) },
                        )
                    } else {
                        g1
                    };
                    o.at(g2).record(ActionView::ReceiveDamage { target: t, amount })
                },
            }
        },
    }
}

/// The end of the entity `t`: it goes to the graveyard, and what it does on
/// death is queued.
#[verifier::opaque]
pub open spec fn destroy(o: Outcome, t: InstanceId) -> Outcome {
    match entity_index(o.game.entities, t) {
        None => o.stop(Fault::DestroyTargetNotFound(t)),
        Some(i) => {
            let c = o.game.entities[i];
            let g1 = o.game.with_entity(i, c.at(Location::Graveyard));
            match c.card_type {
                CardTypeView::Spell(_) => o.at(g1).stop(Fault::DestroySpell),
                CardTypeView::Monster(m) => {
                    if m.on_death.len() > 0 {
                        o.at(g1.enqueue_all(m.on_death)).record(
                            ActionView::TriggerOnDeath(t),
                        ).record(ActionView::Destroy { target: t })
                    } else {
                        o.at(g1).record(ActionView::Destroy { target: t })
                    }
                },
            }
        },
    }
}

/// Healing of the player `t`, recorded only where it gave something.
#[verifier::opaque]
pub open spec fn heal_player(o: Outcome, t: PlayerId, amount: usize) -> Outcome {
    match player_index(o.game.players, t) {
        None => o.stop(Fault::PlayerNotFound(t)),
        Some(i) => {
            let p = o.game.players[i];
            let hp = healed(p.hp, amount, 30);
            if hp > p.hp {
                o.at(o.game.with_player(i, PlayerInstance { hp, ..p })).record(
                    ActionView::Heal { target: t, amount: (hp - p.hp) as usize },
                )
            } else {
                o
            }
        },
    }
}

/// Healing of the monster `t`, recorded only where it gave something.
#[verifier::opaque]
pub open spec fn heal_entity(o: Outcome, t: InstanceId, amount: usize) -> Outcome {
    match entity_index(o.game.entities, t) {
        None => o.stop(Fault::CardNotFound(t)),
        Some(i) => {
            let c = o.game.entities[i];
            match c.card_type {
                CardTypeView::Spell(_) => o.stop(Fault::HealSpell),
                CardTypeView::Monster(m) => {
                    let hp = healed(m.hp, amount, m.max_hp);
                    if hp > m.hp {
                        o.at(
                            o.game.with_entity(i, c.with_monster(MonsterView { hp, ..m })),
                        ).record(ActionView::Heal { target: t, amount: (hp - m.hp) as usize })
                    } else {
                        o
                    }
                },
            }
        },
    }
}

/// A boost of the monster `t`: more attack, and as much more health as more room for it.
#[verifier::opaque]
pub open spec fn boost(o: Outcome, t: InstanceId, attack: usize, hp: usize) -> Outcome {
    match entity_index(o.game.entities, t) {
        None => o.stop(Fault::CardNotFound(t)),
        Some(i) => {
            let c = o.game.entities[i];
            match c.card_type {
                CardTypeView::Spell(_) => o.stop(Fault::BoostSpell),
                CardTypeView::Monster(m) => {
                    if m.attack + attack > usize::MAX || m.hp + hp > usize::MAX || m.max_hp + hp
                        > usize::MAX {
                        o.stop(Fault::StatOverflow)
                    } else {
                        o.at(
                            o.game.with_entity(
                                i,
                                c.with_monster(
                                    MonsterView {
                                        attack: (m.attack + attack) as usize,
                                        hp: (m.hp + hp) as usize,
                                        max_hp: (m.max_hp + hp) as usize,
                                        ..m
                                    },
                                ),
                            ),
                        ).record(ActionView::Boost { target: t, attack, hp })
                    }
                },
            }
        },
    }
}

/// Growth of the base mana of the player `t`. The effect itself knows no cap.
#[verifier::opaque]
pub open spec fn increase_max_mana(o: Outcome, t: PlayerId, amount: usize) -> Outcome {
    match player_index(o.game.players, t) {
        None => o.stop(Fault::PlayerNotFound(t)),
        Some(i) => {
            let p = o.game.players[i];
            if p.base_mana + amount > usize::MAX {
                o.stop(Fault::StatOverflow)
            } else {
                o.at(
                    o.game.with_player(
                        i,
                        PlayerInstance { base_mana: (p.base_mana + amount) as usize, ..p },
                    ),
                ).record(ActionView::IncreaseMaxMana { player: t, amount })
            }
        },
    }
}

/// Mana given back to the player `t`, never past the base mana.
#[verifier::opaque]
pub open spec fn refresh_mana(o: Outcome, t: PlayerId, amount: usize) -> Outcome {
    match player_index(o.game.players, t) {
        None => o.stop(Fault::PlayerNotFound(t)),
        Some(i) => {
            let p = o.game.players[i];
            o.at(
                o.game.with_player(
                    i,
                    PlayerInstance { mana: refreshed(p.mana, amount, p.base_mana), ..p },
                ),
            ).record(
                ActionView::RefreshMana {
                    player: t,
                    amount: refresh_gain(p.mana, amount, p.base_mana),
                },
            )
        },
    }
}

/// One draw of the player `p`: the first card of the deck goes to the hand, or
/// to the graveyard where the hand is full. With an empty deck nothing happens.
#[verifier::opaque]
pub open spec fn draw_one(o: Outcome, p: PlayerId) -> Outcome {
    if o.fault is Some {
        o
    } else {
        match first_accepted(o.game.entities, Selector::DeckOf(p)) {
            None => o,
            Some(i) => {
                let c = o.game.entities[i];
                if count(o.game.entities, Selector::HandOf(p)) < 10 {
                    let drawn = c.at(Location::Hand);
                    let o1 = o.at(o.game.with_entity(i, drawn)).record(
                        ActionView::Draw { player: p, card: drawn },
                    );
                    match opponent_of(o.game.players, p) {
                        None => o1.stop(Fault::OpponentNotFound(p)),
                        Some(q) => o1.record(ActionView::EnemyDraw { player: q }),
                    }
                } else {
                    o.at(o.game.with_entity(i, c.at(Location::Graveyard))).record(
                        ActionView::BurnCard { player: p, card: c.id },
                    )
                }
            },
        }
    }
}

/// `n` draws of the player `p`, one after the other.
pub open spec fn draw_many(o: Outcome, p: PlayerId, n: nat) -> Outcome
    decreases n,
{
    if n == 0 {
        o
    } else {
        draw_one(draw_many(o, p, (n - 1) as nat), p)
    }
}

/// The attack of `initiator` on `t`, unfolded into what the queue will do: what
/// the attacker does on attack, then its blow, then the blow back where the
/// target is a monster.
#[verifier::opaque]
pub open spec fn strike(o: Outcome, t: usize, initiator: InstanceId) -> Outcome {
    match entity_index(o.game.entities, initiator) {
        None => o.stop(Fault::AttackEntityNotFound(initiator)),
        Some(i) => {
            let c = o.game.entities[i];
            match c.card_type {
                CardTypeView::Spell(_) => o.stop(Fault::AttackWithSpell),
                CardTypeView::Monster(m) => {
                    let o1 = if m.on_attack.len() > 0 {
                        o.at(o.game.enqueue_all(m.on_attack)).record(
                            ActionView::TriggerOnAttack(initiator),
                        )
                    } else {
                        o
                    };
                    let o2 = o1.at(
                        o1.game.enqueue(
                            EffectView::DealDamage {
                                initiator,
                                target: TargetView::Id(t),
                                amount: m.attack,
                            },
                        ),
                    );
                    if is_player(t) {
                        o2.record(ActionView::Attack { initiator, target: t })
                    } else {
                        match entity_index(o2.game.entities, t) {
                            None => o2.stop(Fault::CardNotFound(t)),
                            Some(j) => match o2.game.entities[j].card_type {
                                CardTypeView::Spell(_) => o2.stop(Fault::AttackSpell),
                                CardTypeView::Monster(tm) => o2.at(
                                    o2.game.enqueue(
                                        EffectView::DealDamage {
                                            initiator: t,
                                            target: TargetView::Id(initiator),
                                            amount: tm.attack,
                                        },
                                    ),
                                ).record(ActionView::Attack { initiator, target: t }),
                            },
                        }
                    }
                },
            }
        },
    }
}

/// One step: `op` on the recipient `t`. After a failure nothing more happens.
#[verifier::opaque]
pub open spec fn apply_op(o: Outcome, op: OpView, t: usize) -> Outcome {
    if o.fault is Some {
        o
    } else {
        match op {
            OpView::DamagePlayer { amount } => damage_player(o, t, amount),
            OpView::DamageEntity { initiator, amount } => damage_entity(o, t, initiator, amount),
            OpView::Destroy => destroy(o, t),
            OpView::HealPlayer { amount } => heal_player(o, t, amount),
            OpView::HealEntity { amount } => heal_entity(o, t, amount),
            OpView::Boost { attack, hp } => boost(o, t, attack, hp),
            OpView::IncreaseMaxMana { amount } => increase_max_mana(o, t, amount),
            OpView::RefreshMana { amount } => refresh_mana(o, t, amount),
            OpView::Draw { amount } => draw_many(o, t, amount as nat),
            OpView::Strike { initiator } => strike(o, t, initiator),
            OpView::Summon { template } => summon_step(o, t, template),
        }
    }
}

/// `op` on each recipient of `ts`, in order.
pub open spec fn apply_all(o: Outcome, op: OpView, ts: Seq<usize>) -> Outcome
    decreases ts.len(),
{
    if ts.len() == 0 {
        o
    } else {
        apply_op(apply_all(o, op, ts.drop_last()), op, ts.last())
    }
}

/// `op` on each of the recipients that resolution found, or the failure of resolution.
pub open spec fn then_all(
    o: Outcome,
    op: OpView,
    ts: std::result::Result<Seq<usize>, Fault>,
) -> Outcome {
    if o.fault is Some {
        o
    } else {
        match ts {
            Err(f) => o.stop(f),
            Ok(ts) => apply_all(o, op, ts),
        }
    }
}

/// The outcome that an exec step starts from: the state and the actions so far.
pub open spec fn entering(game: GameView, actions: Seq<Action>) -> Outcome {
    Outcome { game, actions: actions_view(actions), fault: None }
}

/// Whether an exec step that came to `game`, `actions` and `r` did what `after` says.
pub open spec fn produced(
    game: GameView,
    actions: Seq<Action>,
    r: Result<()>,
    after: Outcome,
) -> bool {
    &&& game == after.game
    &&& match r {
        Ok(_) => after.fault is None && actions_view(actions) == after.actions,
        Err(e) => after.fault is Some && e@ == after.fault->0.error_view(),
    }
}

fn do_damage_player(game: &mut Game, actions: &mut Vec<Action>, t: PlayerId, amount: usize) -> (r:
    Result<()>)
    ensures
        produced(
            final(game)@,
            final(actions)@,
            r,
            damage_player(entering(old(game)@, old(actions)@), t, amount),
        ),
{
    proof {
        reveal(damage_player);
    }
    match game.find_player(t) {
        None => Err(Fault::PlayerNotFound(t).to_error()),
        Some(i) => {
            let p = game.players[i];
            let hp = if p.hp >= amount {
                p.hp - amount
            } else {
                0
            };
            game.set_player(
                i,
                PlayerInstance {
                    player_id: p.player_id,
                    hp,
                    mana: p.mana,
                    base_mana: p.base_mana,
                    move_count: p.move_count,
                    max_move: p.max_move,
                    archetype: p.archetype,
                },
            );
            if hp == 0 {
                match game.opponent_id(t) {
                    None => {
                        return Err(Fault::OpponentNotFound(t).to_error());
                    },
                    Some(w) => {
                        game.enqueue(Effect::Win(w));
                    },
                }
            }
            record(actions, Action::ReceiveDamage { target: t, amount });
            Ok(())
        },
    }
}

fn do_damage_entity(
    game: &mut Game,
    actions: &mut Vec<Action>,
    t: InstanceId,
    initiator: InstanceId,
    amount: usize,
) -> (r: Result<()>)
    ensures
        produced(
            final(game)@,
            final(actions)@,
            r,
            damage_entity(entering(old(game)@, old(actions)@), t, initiator, amount),
        ),
{
    proof {
        reveal(damage_entity);
    }
    match game.find_first(Selector::WithId(t)) {
        None => Err(Fault::CardNotFound(t).to_error()),
        Some(i) => {
            match &game.entities[i].card_type {
                CardTypeInstance::Spell(_) => Err(Fault::DamageSpell.to_error()),
                CardTypeInstance::Monster(m) => {
                    let hp = if m.hp >= amount {
                        m.hp - amount
                    } else {
                        0
                    };
                    let (attack, max_hp, asleep, attack_count) = (
                        m.attack,
                        m.max_hp,
                        m.asleep,
                        m.attack_count,
                    );
                    game.set_monster(i, attack, hp, max_hp, asleep, attack_count);
                    if hp == 0 {
                        game.enqueue(Effect::Destroy { initiator, target: Target::Id(t) });
                    }
                    record(actions, Action::ReceiveDamage { target: t, amount });
                    Ok(())
                },
            }
        },
    }
}

fn do_destroy(game: &mut Game, actions: &mut Vec<Action>, t: InstanceId) -> (r: Result<()>)
    ensures
        produced(final(game)@, final(actions)@, r, destroy(entering(old(game)@, old(actions)@), t)),
{
    proof {
        reveal(destroy);
    }
    match game.find_first(Selector::WithId(t)) {
        None => Err(Fault::DestroyTargetNotFound(t).to_error()),
        Some(i) => {
            game.set_location(i, Location::Graveyard);
            assert(game@.entities[i as int] == game.entities@[i as int]@);
            let on_death = match &game.entities[i].card_type {
                CardTypeInstance::Spell(_) => {
                    return Err(Fault::DestroySpell.to_error());
                },
                CardTypeInstance::Monster(m) => crate::game::effects::clone_effects(&m.on_death),
            };
            if on_death.len() > 0 {
                record(actions, Action::TriggerOnDeath(t));
                game.enqueue_copies(&on_death);
            }
            record(actions, Action::Destroy { target: t });
            Ok(())
        },
    }
}

fn do_heal_player(game: &mut Game, actions: &mut Vec<Action>, t: PlayerId, amount: usize) -> (r:
    Result<()>)
    ensures
        produced(
            final(game)@,
            final(actions)@,
            r,
            heal_player(entering(old(game)@, old(actions)@), t, amount),
        ),
{
    proof {
        reveal(heal_player);
    }
    match game.find_player(t) {
        None => Err(Fault::PlayerNotFound(t).to_error()),
        Some(i) => {
            let p = game.players[i];
            let hp = heal_to(p.hp, amount, 30);
            if hp > p.hp {
                game.set_player(
                    i,
                    PlayerInstance {
                        player_id: p.player_id,
                        hp,
                        mana: p.mana,
                        base_mana: p.base_mana,
                        move_count: p.move_count,
                        max_move: p.max_move,
                        archetype: p.archetype,
                    },
                );
                record(actions, Action::Heal { target: t, amount: hp - p.hp });
            }
            Ok(())
        },
    }
}

/// Health `hp` after healing `amount` under the cap `cap`.
pub fn heal_to(hp: usize, amount: usize, cap: usize) -> (r: usize)
    ensures
        r == healed(hp, amount, cap),
{
    if hp >= cap {
        hp
    } else if amount >= cap - hp {
        cap
    } else {
        hp + amount
    }
}

fn do_heal_entity(game: &mut Game, actions: &mut Vec<Action>, t: InstanceId, amount: usize) -> (r:
    Result<()>)
    ensures
        produced(
            final(game)@,
            final(actions)@,
            r,
            heal_entity(entering(old(game)@, old(actions)@), t, amount),
        ),
{
    proof {
        reveal(heal_entity);
    }
    match game.find_first(Selector::WithId(t)) {
        None => Err(Fault::CardNotFound(t).to_error()),
        Some(i) => {
            match &game.entities[i].card_type {
                CardTypeInstance::Spell(_) => Err(Fault::HealSpell.to_error()),
                CardTypeInstance::Monster(m) => {
                    let old_hp = m.hp;
                    let hp = heal_to(m.hp, amount, m.max_hp);
                    let (attack, max_hp, asleep, attack_count) = (
                        m.attack,
                        m.max_hp,
                        m.asleep,
                        m.attack_count,
                    );
                    if hp > old_hp {
                        game.set_monster(i, attack, hp, max_hp, asleep, attack_count);
                        record(actions, Action::Heal { target: t, amount: hp - old_hp });
                    }
                    Ok(())
                },
            }
        },
    }
}

fn do_boost(game: &mut Game, actions: &mut Vec<Action>, t: InstanceId, attack: usize, hp: usize) -> (r:
    Result<()>)
    ensures
        produced(
            final(game)@,
            final(actions)@,
            r,
            boost(entering(old(game)@, old(actions)@), t, attack, hp),
        ),
{
    proof {
        reveal(boost);
    }
    match game.find_first(Selector::WithId(t)) {
        None => Err(Fault::CardNotFound(t).to_error()),
        Some(i) => {
            match &game.entities[i].card_type {
                CardTypeInstance::Spell(_) => Err(Fault::BoostSpell.to_error()),
                CardTypeInstance::Monster(m) => {
                    let (asleep, attack_count) = (m.asleep, m.attack_count);
                    match (
                        m.attack.checked_add(attack),
                        m.hp.checked_add(hp),
                        m.max_hp.checked_add(hp),
                    ) {
                        (Some(new_attack), Some(new_hp), Some(new_max)) => {
                            game.set_monster(i, new_attack, new_hp, new_max, asleep, attack_count);
                            record(actions, Action::Boost { target: t, attack, hp });
                            Ok(())
                        },
                        _ => Err(Fault::StatOverflow.to_error()),
                    }
                },
            }
        },
    }
}

fn do_increase_max_mana(
    game: &mut Game,
    actions: &mut Vec<Action>,
    t: PlayerId,
    amount: usize,
) -> (r: Result<()>)
    ensures
        produced(
            final(game)@,
            final(actions)@,
            r,
            increase_max_mana(entering(old(game)@, old(actions)@), t, amount),
        ),
{
    proof {
        reveal(increase_max_mana);
    }
    match game.find_player(t) {
        None => Err(Fault::PlayerNotFound(t).to_error()),
        Some(i) => {
            let p = game.players[i];
            match p.base_mana.checked_add(amount) {
                None => Err(Fault::StatOverflow.to_error()),
                Some(base_mana) => {
                    game.set_player(
                        i,
                        PlayerInstance {
                            player_id: p.player_id,
                            hp: p.hp,
                            mana: p.mana,
                            base_mana,
                            move_count: p.move_count,
                            max_move: p.max_move,
                            archetype: p.archetype,
                        },
                    );
                    record(actions, Action::IncreaseMaxMana { player: t, amount });
                    Ok(())
                },
            }
        },
    }
}

fn do_refresh_mana(game: &mut Game, actions: &mut Vec<Action>, t: PlayerId, amount: usize) -> (r:
    Result<()>)
    ensures
        produced(
            final(game)@,
            final(actions)@,
            r,
            refresh_mana(entering(old(game)@, old(actions)@), t, amount),
        ),
{
    proof {
        reveal(refresh_mana);
    }
    match game.find_player(t) {
        None => Err(Fault::PlayerNotFound(t).to_error()),
        Some(i) => {
            let p = game.players[i];
            let room = if p.base_mana >= p.mana {
                p.base_mana - p.mana
            } else {
                0
            };
            let (mana, gain) = if amount >= room {
                (p.base_mana, room)
            } else {
                (p.mana + amount, amount)
            };
            game.set_player(
                i,
                PlayerInstance {
                    player_id: p.player_id,
                    hp: p.hp,
                    mana,
                    base_mana: p.base_mana,
                    move_count: p.move_count,
                    max_move: p.max_move,
                    archetype: p.archetype,
                },
            );
            record(actions, Action::RefreshMana { player: t, amount: gain });
            Ok(())
        },
    }
}

fn do_draw_one(game: &mut Game, actions: &mut Vec<Action>, p: PlayerId) -> (r: Result<()>)
    ensures
        produced(
            final(game)@,
            final(actions)@,
            r,
            draw_one(entering(old(game)@, old(actions)@), p),
        ),
{
    proof {
        reveal(draw_one);
    }
    match game.find_first(Selector::DeckOf(p)) {
        None => Ok(()),
        Some(i) => {
            let in_hand = game.find_ids(Selector::HandOf(p)).len();
            if in_hand < 10 {
                game.set_location(i, Location::Hand);
                assert(game@.entities[i as int] == game.entities@[i as int]@);
                let card = game.entities[i].clone();
                record(actions, Action::Draw { player: p, card });
                match game.opponent_id(p) {
                    None => Err(Fault::OpponentNotFound(p).to_error()),
                    Some(q) => {
                        record(actions, Action::EnemyDraw { player: q });
                        Ok(())
                    },
                }
            } else {
                assert(game@.entities[i as int] == game.entities@[i as int]@);
                let id = game.entities[i].id;
                game.set_location(i, Location::Graveyard);
                record(actions, Action::BurnCard { player: p, card: id });
                Ok(())
            }
        },
    }
}

/// Draws `amount` times for the player `p`, and stops at the first failure.
pub fn do_draw_many(game: &mut Game, actions: &mut Vec<Action>, p: PlayerId, amount: usize) -> (r:
    Result<()>)
    ensures
        produced(
            final(game)@,
            final(actions)@,
            r,
            draw_many(entering(old(game)@, old(actions)@), p, amount as nat),
        ),
{
    let ghost o0 = entering(game@, actions@);
    let mut done: Result<()> = Ok(());
    let mut n: usize = 0;
    while n < amount && done.is_ok()
        invariant
            n <= amount,
            produced(
                game@,
                actions@,
                done,
                draw_many(
                    o0,
                    p,
                    if done is Ok {
                        n as nat
                    } else {
                        amount as nat
                    },
                ),
            ),
        decreases amount - n,
    {
        let ghost before = entering(game@, actions@);
        done = do_draw_one(game, actions, p);
        n += 1;
        proof {
            if done is Err {
                lemma_draw_many_stopped(draw_one(before, p), p, (amount - n) as nat);
                lemma_draw_many_split(o0, p, n as nat, (amount - n) as nat);
            }
        }
    }
    done
}

/// After a failure, further draws change nothing.
pub proof fn lemma_draw_many_stopped(o: Outcome, p: PlayerId, n: nat)
    requires
        o.fault is Some,
    ensures
        draw_many(o, p, n) == o,
    decreases n,
{
    reveal(draw_one);
    if n > 0 {
        lemma_draw_many_stopped(o, p, (n - 1) as nat);
    }
}

/// Drawing `a + b` times is drawing `a` times and then `b` times.
pub proof fn lemma_draw_many_split(o: Outcome, p: PlayerId, a: nat, b: nat)
    ensures
        draw_many(o, p, a + b) == draw_many(draw_many(o, p, a), p, b),
    decreases b,
{
    if b > 0 {
        lemma_draw_many_split(o, p, a, (b - 1) as nat);
    }
}

fn do_strike(game: &mut Game, actions: &mut Vec<Action>, t: usize, initiator: InstanceId) -> (r:
    Result<()>)
    ensures
        produced(
            final(game)@,
            final(actions)@,
            r,
            strike(entering(old(game)@, old(actions)@), t, initiator),
        ),
{
    proof {
        reveal(strike);
    }
    match game.find_first(Selector::WithId(initiator)) {
        None => Err(Fault::AttackEntityNotFound(initiator).to_error()),
        Some(i) => {
            let (on_attack, attack) = match &game.entities[i].card_type {
                CardTypeInstance::Spell(_) => {
                    return Err(Fault::AttackWithSpell.to_error());
                },
                CardTypeInstance::Monster(m) => (
                    crate::game::effects::clone_effects(&m.on_attack),
                    m.attack,
                ),
            };
            if on_attack.len() > 0 {
                record(actions, Action::TriggerOnAttack(initiator));
                game.enqueue_copies(&on_attack);
            }
            game.enqueue(Effect::DealDamage { initiator, target: Target::Id(t), amount: attack });
            if !is_player_id(t) {
                match game.find_first(Selector::WithId(t)) {
                    None => {
                        return Err(Fault::CardNotFound(t).to_error());
                    },
                    Some(j) => {
                        let back = match &game.entities[j].card_type {
                            CardTypeInstance::Spell(_) => {
                                return Err(Fault::AttackSpell.to_error());
                            },
                            CardTypeInstance::Monster(tm) => tm.attack,
                        };
                        game.enqueue(
                            Effect::DealDamage {
                                initiator: t,
                                target: Target::Id(initiator),
                                amount: back,
                            },
                        );
                    },
                }
            }
            record(actions, Action::Attack { initiator, target: t });
            Ok(())
        },
    }
}

/// Whether an id names a player rather than a card.
pub fn is_player_id(id: usize) -> (b: bool)
    ensures
        b == is_player(id),
{
    id < 2
}

/// Does `op` to the recipient `t`.
pub fn apply(game: &mut Game, actions: &mut Vec<Action>, op: &Op, t: usize) -> (r: Result<()>)
    ensures
        produced(
            final(game)@,
            final(actions)@,
            r,
            apply_op(entering(old(game)@, old(actions)@), op@, t),
        ),
{
    proof {
        reveal(apply_op);
    }
    match op {
        Op::DamagePlayer { amount } => do_damage_player(game, actions, t, *amount),
        Op::DamageEntity { initiator, amount } => do_damage_entity(
            game,
            actions,
            t,
            *initiator,
            *amount,
        ),
        Op::Destroy => do_destroy(game, actions, t),
        Op::HealPlayer { amount } => do_heal_player(game, actions, t, *amount),
        Op::HealEntity { amount } => do_heal_entity(game, actions, t, *amount),
        Op::Boost { attack, hp } => do_boost(game, actions, t, *attack, *hp),
        Op::IncreaseMaxMana { amount } => do_increase_max_mana(game, actions, t, *amount),
        Op::RefreshMana { amount } => do_refresh_mana(game, actions, t, *amount),
        Op::Draw { amount } => do_draw_many(game, actions, t, *amount),
        Op::Strike { initiator } => do_strike(game, actions, t, *initiator),
        Op::Summon { template } => summon_one(game, actions, t, template),
    }
}

/// After a failure, further steps change nothing.
pub proof fn lemma_apply_all_stopped(o: Outcome, op: OpView, ts: Seq<usize>)
    requires
        o.fault is Some,
    ensures
        apply_all(o, op, ts) == o,
    decreases ts.len(),
{
    reveal(apply_op);
    if ts.len() > 0 {
        lemma_apply_all_stopped(o, op, ts.drop_last());
    }
}

/// Steps on `ts` are steps on any front part of it, and then on the rest.
pub proof fn lemma_apply_all_split(o: Outcome, op: OpView, ts: Seq<usize>, k: int)
    requires
        0 <= k <= ts.len(),
    ensures
        apply_all(o, op, ts) == apply_all(apply_all(o, op, ts.take(k)), op, ts.skip(k)),
    decreases ts.len() - k,
{
    if k == ts.len() {
        assert(ts.take(k) =~= ts);
        assert(ts.skip(k) =~= Seq::<usize>::empty());
    } else {
        lemma_apply_all_split(o, op, ts.drop_last(), k);
        assert(ts.drop_last().take(k) =~= ts.take(k));
        assert(ts.drop_last().skip(k) =~= ts.skip(k).drop_last());
        assert(ts.skip(k).last() == ts.last());
    }
}

/// Does `op` to each recipient of `ts`, in order, and stops at the first failure.
pub fn apply_to_all(game: &mut Game, actions: &mut Vec<Action>, op: &Op, ts: &Vec<usize>) -> (r:
    Result<()>)
    ensures
        produced(
            final(game)@,
            final(actions)@,
            r,
            apply_all(entering(old(game)@, old(actions)@), op@, ts@),
        ),
{
    let ghost o0 = entering(game@, actions@);
    let mut done: Result<()> = Ok(());
    let mut k: usize = 0;
    while k < ts.len() && done.is_ok()
        invariant
            k <= ts.len(),
            produced(
                game@,
                actions@,
                done,
                apply_all(
                    o0,
                    op@,
                    if done is Ok {
                        ts@.take(k as int)
                    } else {
                        ts@
                    },
                ),
            ),
        decreases ts.len() - k,
    {
        let ghost before = entering(game@, actions@);
        done = apply(game, actions, op, ts[k]);
        proof {
            assert(ts@.take(k + 1).drop_last() =~= ts@.take(k as int));
            assert(ts@.take(k + 1).last() == ts@[k as int]);
        }
        k += 1;
        proof {
            if done is Err {
                let stopped = apply_op(before, op@, ts@[k - 1]);
                assert(stopped == apply_all(o0, op@, ts@.take(k as int)));
                lemma_apply_all_stopped(stopped, op@, ts@.skip(k as int));
                lemma_apply_all_split(o0, op@, ts@, k as int);
            }
        }
    }
    proof {
        if done is Ok {
            assert(ts@.take(k as int) =~= ts@);
        }
    }
    done
}

} // verus!
