//! The effect engine: who an effect reaches, and what it does.
//!
//! An effect names its recipients by a descriptor. Resolution turns the
//! descriptor into ids, against the state as it is when the effect runs, in two
//! spaces that do not mix: players and entities. The effect then treats its
//! recipients one by one (see [`ops`]). What an effect sets off is put at the
//! back of the queue and never run on the spot.

pub mod laws;
pub mod ops;
pub mod summon;
use crate::error::{Fault, Result};
use crate::game::action::{actions_view, Action, ActionView};
use crate::game::card::{
    contains_keyword, has_keyword, CardTypeInstance, CardTypeView, Keyword, MonsterView,
};
use crate::game::effects::{clone_effects, Effect, EffectView, PlayerTarget, Target, TargetView};
use crate::game::logic::ops::{
    apply_to_all, do_draw_many, draw_many, entering, is_player_id, produced, then_all, Op,
    OpView,
};
use crate::game::logic::summon::summon_outcome;
use crate::game::model::{
    any_accepted, entity_index, has_player, is_player, opponent_of, select_ids, start, GameView,
    Outcome, Selector,
};
use crate::game::types::{InstanceId, Location, PlayerId};
use crate::game::{record, Game};
use vstd::prelude::*;

verus! {

/// The player on whose side `initiator` stands: itself where it is a player,
/// else the owner of the entity.
pub open spec fn side_of(g: GameView, initiator: InstanceId) -> std::result::Result<
    PlayerId,
    Fault,
> {
    if is_player(initiator) {
        Ok(initiator)
    } else {
        match entity_index(g.entities, initiator) {
            None => Err(Fault::CardNotFound(initiator)),
            Some(i) => Ok(g.entities[i].owner),
        }
    }
}

/// The side of `initiator` and the side against it.
pub open spec fn sides(g: GameView, initiator: InstanceId) -> std::result::Result<
    (PlayerId, PlayerId),
    Fault,
> {
    match side_of(g, initiator) {
        Err(f) => Err(f),
        Ok(side) => match opponent_of(g.players, side) {
            None => Err(Fault::OpponentNotFound(side)),
            Some(opponent) => Ok((side, opponent)),
        },
    }
}

/// The ids of `ids` that still name an entity, in order.
pub open spec fn present_ids(g: GameView, ids: Seq<InstanceId>) -> Seq<InstanceId>
    decreases ids.len(),
{
    if ids.len() == 0 {
        Seq::empty()
    } else if any_accepted(g.entities, Selector::WithId(ids.last())) {
        present_ids(g, ids.drop_last()).push(ids.last())
    } else {
        present_ids(g, ids.drop_last())
    }
}

/// The players that `target` names, seen from `initiator`.
///
/// An id that names no player gives nobody. Descriptors of entities give nobody.
pub open spec fn resolved_player_only(
    g: GameView,
    initiator: InstanceId,
    target: TargetView,
) -> std::result::Result<Seq<usize>, Fault> {
    match sides(g, initiator) {
        Err(f) => Err(f),
        Ok((side, opponent)) => Ok(
            match target {
                TargetView::Player => seq![side],
                TargetView::EnnemyPlayer => seq![opponent],
                TargetView::BothPlayers => seq![side, opponent],
                TargetView::All => seq![side, opponent],
                TargetView::Id(id) => if has_player(g.players, id) {
                    seq![id]
                } else {
                    Seq::empty()
                },
                _ => Seq::empty(),
            },
        ),
    }
}

/// The players that `target` names, seen from `initiator`.
pub open spec fn resolved_player_target(
    g: GameView,
    initiator: InstanceId,
    target: PlayerTarget,
) -> std::result::Result<Seq<usize>, Fault> {
    match sides(g, initiator) {
        Err(f) => Err(f),
        Ok((side, opponent)) => Ok(
            match target {
                PlayerTarget::Player => seq![side],
                PlayerTarget::EnnemyPlayer => seq![opponent],
                PlayerTarget::BothPlayers => seq![side, opponent],
                PlayerTarget::Id(id) => if has_player(g.players, id) {
                    seq![id]
                } else {
                    Seq::empty()
                },
            },
        ),
    }
}

/// The entities that `target` names, seen from `initiator`.
///
/// An id that names no entity gives nothing, and a list of chosen ids gives
/// those that still name one. Descriptors of players give nothing, and neither
/// do matchers and composite descriptors.
pub open spec fn resolved_field(
    g: GameView,
    initiator: InstanceId,
    target: TargetView,
) -> std::result::Result<Seq<usize>, Fault> {
    match sides(g, initiator) {
        Err(f) => Err(f),
        Ok((side, opponent)) => Ok(
            match target {
                TargetView::ItSelf => seq![initiator],
                TargetView::Allies => select_ids(g.entities, Selector::FieldOf(side)),
                TargetView::Ennemies => select_ids(g.entities, Selector::FieldOf(opponent)),
                TargetView::AllMonsters => select_ids(g.entities, Selector::FieldOf(side))
                    + select_ids(g.entities, Selector::FieldOf(opponent)),
                TargetView::All => select_ids(g.entities, Selector::OnField),
                TargetView::Id(id) => if any_accepted(g.entities, Selector::WithId(id)) {
                    seq![id]
                } else {
                    Seq::empty()
                },
                TargetView::Ids(ids) => present_ids(g, ids),
                _ => Seq::empty(),
            },
        ),
    }
}

/// Everyone that `target` names, seen from `initiator`: the players, then the entities.
pub open spec fn resolved_target(
    g: GameView,
    initiator: InstanceId,
    target: TargetView,
) -> std::result::Result<Seq<usize>, Fault> {
    match resolved_player_only(g, initiator, target) {
        Err(f) => Err(f),
        Ok(players) => match resolved_field(g, initiator, target) {
            Err(f) => Err(f),
            Ok(entities) => Ok(players + entities),
        },
    }
}

/// Whether the exec result `r` is the resolution `s`.
pub open spec fn resolved_as(r: Result<Vec<usize>>, s: std::result::Result<Seq<usize>, Fault>) -> bool {
    match r {
        Ok(v) => s == Ok::<Seq<usize>, Fault>(v@),
        Err(e) => s is Err && e@ == s->Err_0.error_view(),
    }
}

fn resolve_sides(initiator: InstanceId, context: &Game) -> (r: Result<(PlayerId, PlayerId)>)
    ensures
        match r {
            Ok(pair) => sides(context@, initiator) == Ok::<(PlayerId, PlayerId), Fault>(pair),
            Err(e) => sides(context@, initiator) is Err && e@ == sides(
                context@,
                initiator,
            )->Err_0.error_view(),
        },
{
    let player_side = if is_player_id(initiator) {
        initiator
    } else {
        match context.find_first(Selector::WithId(initiator)) {
            None => {
                return Err(Fault::CardNotFound(initiator).to_error());
            },
            Some(i) => context.entities[i].owner,
        }
    };
    match context.opponent_id(player_side) {
        None => Err(Fault::OpponentNotFound(player_side).to_error()),
        Some(opponent_id) => Ok((player_side, opponent_id)),
    }
}

fn one(id: usize) -> (v: Vec<usize>)
    ensures
        v@ == seq![id],
{
    let mut v: Vec<usize> = Vec::new();
    v.push(id);
    assert(v@ =~= seq![id]);
    v
}

fn two(a: usize, b: usize) -> (v: Vec<usize>)
    ensures
        v@ == seq![a, b],
{
    let mut v: Vec<usize> = Vec::new();
    v.push(a);
    v.push(b);
    assert(v@ =~= seq![a, b]);
    v
}

fn join(a: Vec<usize>, b: &Vec<usize>) -> (v: Vec<usize>)
    ensures
        v@ == a@ + b@,
{
    let mut v = a;
    let mut i: usize = 0;
    while i < b.len()
        invariant
            i <= b.len(),
            v@ == a@ + b@.take(i as int),
        decreases b.len() - i,
    {
        v.push(b[i]);
        i += 1;
        assert(v@ =~= a@ + b@.take(i as int));
    }
    assert(b@.take(i as int) =~= b@);
    v
}

fn resolve_present(context: &Game, ids: &Vec<InstanceId>) -> (v: Vec<InstanceId>)
    ensures
        v@ == present_ids(context@, ids@),
{
    let mut v: Vec<usize> = Vec::new();
    let mut i: usize = 0;
    while i < ids.len()
        invariant
            i <= ids.len(),
            v@ == present_ids(context@, ids@.take(i as int)),
        decreases ids.len() - i,
    {
        proof {
            assert(ids@.take(i + 1).drop_last() =~= ids@.take(i as int));
        }
        if context.find_first(Selector::WithId(ids[i])).is_some() {
            v.push(ids[i]);
        }
        i += 1;
    }
    assert(ids@.take(i as int) =~= ids@);
    v
}

/// Everyone that `target` names, seen from `initiator`: the players, then the entities.
pub fn resolve_target(initiator: InstanceId, target: &Target, context: &Game) -> (r: Result<
    Vec<InstanceId>,
>)
    ensures
        resolved_as(r, resolved_target(context@, initiator, target@)),
{
    let player_targets = match resolve_target_player_only(initiator, target, context) {
        Err(e) => {
            return Err(e);
        },
        Ok(v) => v,
    };
    let field_targets = match resolve_field_target(initiator, target, context) {
        Err(e) => {
            return Err(e);
        },
        Ok(v) => v,
    };
    Ok(join(player_targets, &field_targets))
}

/// The players that `target` names, seen from `initiator`.
pub fn resolve_target_player_only(initiator: InstanceId, target: &Target, context: &Game) -> (r:
    Result<Vec<PlayerId>>)
    ensures
        resolved_as(r, resolved_player_only(context@, initiator, target@)),
{
    let (player_side, opponent_id) = match resolve_sides(initiator, context) {
        Err(e) => {
            return Err(e);
        },
        Ok(pair) => pair,
    };
    let targets = match target {
        Target::Player => one(player_side),
        Target::EnnemyPlayer => one(opponent_id),
        Target::BothPlayers => two(player_side, opponent_id),
        Target::All => two(player_side, opponent_id),
        Target::Id(id) => {
            if context.find_player(*id).is_some() {
                one(*id)
            } else {
                Vec::new()
            }
        },
        _ => Vec::new(),
    };
    Ok(targets)
}

/// The players that `target` names, seen from `initiator`.
pub fn resolve_player_target(initiator: InstanceId, target: &PlayerTarget, context: &Game) -> (r:
    Result<Vec<PlayerId>>)
    ensures
        resolved_as(r, resolved_player_target(context@, initiator, *target)),
{
    let (player_side, opponent_id) = match resolve_sides(initiator, context) {
        Err(e) => {
            return Err(e);
        },
        Ok(pair) => pair,
    };
    let targets = match target {
        PlayerTarget::Player => one(player_side),
        PlayerTarget::EnnemyPlayer => one(opponent_id),
        PlayerTarget::BothPlayers => two(player_side, opponent_id),
        PlayerTarget::Id(id) => {
            if context.find_player(*id).is_some() {
                one(*id)
            } else {
                Vec::new()
            }
        },
    };
    Ok(targets)
}

/// The entities that `target` names, seen from `initiator`.
pub fn resolve_field_target(initiator: InstanceId, target: &Target, context: &Game) -> (r: Result<
    Vec<InstanceId>,
>)
    ensures
        resolved_as(r, resolved_field(context@, initiator, target@)),
{
    let (player_side, opponent_id) = match resolve_sides(initiator, context) {
        Err(e) => {
            return Err(e);
        },
        Ok(pair) => pair,
    };
    let targets = match target {
        Target::ItSelf => one(initiator),
        Target::Allies => context.find_ids(Selector::FieldOf(player_side)),
        Target::Ennemies => context.find_ids(Selector::FieldOf(opponent_id)),
        Target::AllMonsters => {
            let theirs = context.find_ids(Selector::FieldOf(opponent_id));
            join(context.find_ids(Selector::FieldOf(player_side)), &theirs)
        },
        Target::All => context.find_ids(Selector::OnField),
        Target::Id(id) => {
            if context.find_first(Selector::WithId(*id)).is_some() {
                one(*id)
            } else {
                Vec::new()
            }
        },
        Target::Ids(ids) => resolve_present(context, ids),
        _ => Vec::new(),
    };
    Ok(targets)
}

/// A card of the hand lands on the field. What it does on play is queued, and
/// Charge wakes it at once.
#[verifier::opaque]
pub open spec fn summon_from_hand(o: Outcome, entity_id: InstanceId, position: usize) -> Outcome {
    match entity_index(o.game.entities, entity_id) {
        None => o.stop(Fault::SummonEntityNotFound(entity_id)),
        Some(i) => {
            let c = o.game.entities[i];
            let landed = c.at(Location::Field(position));
            let o1 = o.at(o.game.with_entity(i, landed)).record(
                ActionView::Summon {
                    source: c.location,
                    destination: position,
                    target: landed,
                    owner: c.owner,
                },
            );
            match c.card_type {
                CardTypeView::Spell(_) => o1.stop(Fault::SummonSpell),
                CardTypeView::Monster(m) => {
                    let g2 = if has_keyword(m.keywords, Keyword::Charge) {
                        o1.game.with_entity(
                            i,
                            landed.with_monster(MonsterView { asleep: false, ..m }),
                        )
                    } else {
                        o1.game
                    };
                    if m.on_play.len() > 0 {
                        o1.at(g2.enqueue_all(m.on_play)).record(
                            ActionView::TriggerOnPlay(entity_id),
                        )
                    } else {
                        o1.at(g2)
                    }
                },
            }
        },
    }
}

/// What running the effect `e` in the state `g` comes to.
#[verifier::opaque]
pub open spec fn effect_outcome(g: GameView, e: EffectView) -> Outcome {
    match e {
        EffectView::MakeDraw { initiator, player, amount } => then_all(
            start(g),
            OpView::Draw { amount },
            resolved_player_target(g, initiator, player),
        ),
        EffectView::AutoDraw { player, amount } => draw_many(start(g), player, amount as nat),
        EffectView::DealDamage { initiator, target, amount } => {
            let o1 = then_all(
                start(g),
                OpView::DamagePlayer { amount },
                resolved_player_only(g, initiator, target),
            );
            then_all(
                o1,
                OpView::DamageEntity { initiator, amount },
                resolved_field(o1.game, initiator, target),
            )
        },
        EffectView::Destroy { initiator, target } => then_all(
            start(g),
            OpView::Destroy,
            resolved_field(g, initiator, target),
        ),
        EffectView::Heal { initiator, target, amount } => {
            let o1 = then_all(
                start(g),
                OpView::HealPlayer { amount },
                resolved_player_only(g, initiator, target),
            );
            then_all(
                o1,
                OpView::HealEntity { amount },
                resolved_field(o1.game, initiator, target),
            )
        },
        EffectView::Attack { initiator, target } => then_all(
            start(g),
            OpView::Strike { initiator },
            resolved_target(g, initiator, target),
        ),
        EffectView::Boost { initiator, attack, hp, target } => then_all(
            start(g),
            OpView::Boost { attack, hp },
            resolved_field(g, initiator, target),
        ),
        EffectView::IncreaseMaxMana { initiator, player, amount } => then_all(
            start(g),
            OpView::IncreaseMaxMana { amount },
            resolved_player_target(g, initiator, player),
        ),
        EffectView::RefreshMana { initiator, player, amount } => then_all(
            start(g),
            OpView::RefreshMana { amount },
            resolved_player_target(g, initiator, player),
        ),
        EffectView::Summon { initiator, side, target } => summon_outcome(
            g,
            initiator,
            side,
            target,
        ),
        EffectView::SummonFromHand { entity_id, position } => summon_from_hand(
            start(g),
            entity_id,
            position,
        ),
        EffectView::Win(player) => start(GameView { winner_id: Some(player), ..g }).record(
            ActionView::Win(player),
        ),
    }
}

/// Whether an exec run that came to `game` and `r` did what `after` says.
pub open spec fn carried_out(game: GameView, r: Result<Vec<Action>>, after: Outcome) -> bool {
    &&& game == after.game
    &&& match r {
        Ok(actions) => after.fault is None && actions_view(actions@) == after.actions,
        Err(e) => after.fault is Some && e@ == after.fault->0.error_view(),
    }
}

/// Resolves in one space and treats each recipient that was found.
fn run_players(
    context: &mut Game,
    actions: &mut Vec<Action>,
    op: &Op,
    initiator: InstanceId,
    player: &PlayerTarget,
) -> (r: Result<()>)
    ensures
        produced(
            final(context)@,
            final(actions)@,
            r,
            then_all(
                entering(old(context)@, old(actions)@),
                op@,
                resolved_player_target(old(context)@, initiator, *player),
            ),
        ),
{
    match resolve_player_target(initiator, player, context) {
        Err(e) => Err(e),
        Ok(targets) => apply_to_all(context, actions, op, &targets),
    }
}

fn run_player_side(
    context: &mut Game,
    actions: &mut Vec<Action>,
    op: &Op,
    initiator: InstanceId,
    target: &Target,
) -> (r: Result<()>)
    ensures
        produced(
            final(context)@,
            final(actions)@,
            r,
            then_all(
                entering(old(context)@, old(actions)@),
                op@,
                resolved_player_only(old(context)@, initiator, target@),
            ),
        ),
{
    match resolve_target_player_only(initiator, target, context) {
        Err(e) => Err(e),
        Ok(targets) => apply_to_all(context, actions, op, &targets),
    }
}

fn run_field(
    context: &mut Game,
    actions: &mut Vec<Action>,
    op: &Op,
    initiator: InstanceId,
    target: &Target,
) -> (r: Result<()>)
    ensures
        produced(
            final(context)@,
            final(actions)@,
            r,
            then_all(
                entering(old(context)@, old(actions)@),
                op@,
                resolved_field(old(context)@, initiator, target@),
            ),
        ),
{
    match resolve_field_target(initiator, target, context) {
        Err(e) => Err(e),
        Ok(targets) => apply_to_all(context, actions, op, &targets),
    }
}

fn run_summon_from_hand(
    context: &mut Game,
    actions: &mut Vec<Action>,
    entity_id: InstanceId,
    position: usize,
) -> (r: Result<()>)
    ensures
        produced(
            final(context)@,
            final(actions)@,
            r,
            summon_from_hand(entering(old(context)@, old(actions)@), entity_id, position),
        ),
{
    proof {
        reveal(summon_from_hand);
    }
    match context.find_first(Selector::WithId(entity_id)) {
        None => Err(Fault::SummonEntityNotFound(entity_id).to_error()),
        Some(i) => {
            let source = context.entities[i].location;
            let owner = context.entities[i].owner;
            assert(context@.entities[i as int] == context.entities@[i as int]@);
            context.set_location(i, Location::Field(position));
            assert(context@.entities[i as int] == context.entities@[i as int]@);
            let landed = context.entities[i].clone();
            record(
                actions,
                Action::Summon { source, destination: position, target: landed, owner },
            );
            let (on_play, charge, attack, hp, max_hp, attack_count) =
                match &context.entities[i].card_type {
                CardTypeInstance::Spell(_) => {
                    return Err(Fault::SummonSpell.to_error());
                },
                CardTypeInstance::Monster(m) => (
                    clone_effects(&m.on_play),
                    contains_keyword(&m.keywords, Keyword::Charge),
                    m.attack,
                    m.hp,
                    m.max_hp,
                    m.attack_count,
                ),
            };
            if on_play.len() > 0 {
                record(actions, Action::TriggerOnPlay(entity_id));
                context.enqueue_copies(&on_play);
            }
            if charge {
                assert(context@.entities[i as int] == context.entities@[i as int]@);
                context.set_monster(i, attack, hp, max_hp, false, attack_count);
            }
            Ok(())
        },
    }
}

/// Runs one effect against the game, and reports what happened.
///
/// The state is left as the effect made it, also where the effect failed on
/// the way: then what it did before stays done, and the actions are lost.
pub fn execute_effect(effect: &Effect, context: &mut Game) -> (r: Result<Vec<Action>>)
    ensures
        carried_out(final(context)@, r, effect_outcome(old(context)@, effect@)),
{
    proof {
        reveal(effect_outcome);
    }
    let mut actions: Vec<Action> = Vec::new();
    assert(entering(context@, actions@) == start(context@)) by {
        assert(actions_view(actions@) =~= Seq::<ActionView>::empty());
    }
    let done = match effect {
        Effect::MakeDraw { initiator, player, amount } => run_players(
            context,
            &mut actions,
            &Op::Draw { amount: *amount },
            *initiator,
            player,
        ),
        Effect::AutoDraw { player, amount } => do_draw_many(
            context,
            &mut actions,
            *player,
            *amount,
        ),
        Effect::DealDamage { initiator, target, amount } => {
            match run_player_side(
                context,
                &mut actions,
                &Op::DamagePlayer { amount: *amount },
                *initiator,
                target,
            ) {
                Err(e) => Err(e),
                Ok(()) => run_field(
                    context,
                    &mut actions,
                    &Op::DamageEntity { initiator: *initiator, amount: *amount },
                    *initiator,
                    target,
                ),
            }
        },
        Effect::Destroy { initiator, target } => run_field(
            context,
            &mut actions,
            &Op::Destroy,
            *initiator,
            target,
        ),
        Effect::Heal { initiator, target, amount } => {
            match run_player_side(
                context,
                &mut actions,
                &Op::HealPlayer { amount: *amount },
                *initiator,
                target,
            ) {
                Err(e) => Err(e),
                Ok(()) => run_field(
                    context,
                    &mut actions,
                    &Op::HealEntity { amount: *amount },
                    *initiator,
                    target,
                ),
            }
        },
        Effect::Attack { initiator, target } => {
            match resolve_target(*initiator, target, context) {
                Err(e) => Err(e),
                Ok(targets) => apply_to_all(
                    context,
                    &mut actions,
                    &Op::Strike { initiator: *initiator },
                    &targets,
                ),
            }
        },
        Effect::Boost { initiator, attack, hp, target } => run_field(
            context,
            &mut actions,
            &Op::Boost { attack: *attack, hp: *hp },
            *initiator,
            target,
        ),
        Effect::IncreaseMaxMana { initiator, player, amount } => run_players(
            context,
            &mut actions,
            &Op::IncreaseMaxMana { amount: *amount },
            *initiator,
            player,
        ),
        Effect::RefreshMana { initiator, player, amount } => run_players(
            context,
            &mut actions,
            &Op::RefreshMana { amount: *amount },
            *initiator,
            player,
        ),
        Effect::Summon { initiator, side, target } => run_players(
            context,
            &mut actions,
            &Op::Summon { template: target },
            *initiator,
            side,
        ),
        Effect::SummonFromHand { entity_id, position } => run_summon_from_hand(
            context,
            &mut actions,
            *entity_id,
            *position,
        ),
        Effect::Win(player_id) => {
            context.winner_id = Some(*player_id);
            record(&mut actions, Action::Win(*player_id));
            Ok(())
        },
    };
    match done {
        Err(e) => Err(e),
        Ok(()) => Ok(actions),
    }
}

} // verus!
