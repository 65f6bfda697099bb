//! Helpers of the command layer: matching chosen targets, and putting them into effects.

use crate::collection::types::TargetMatcher;
use crate::game::card::{CardInstance, CardView};
use crate::game::effects::{clone_ids, effects_view, Effect, EffectView, Target, TargetView};
use crate::game::types::{InstanceId, PlayerId};
use vstd::prelude::*;

verus! {

/// Whether the card `entity` is one that `matcher` lets a player choose.
pub open spec fn matches_entity(entity: CardView, matcher: TargetMatcher) -> bool {
    match matcher {
        TargetMatcher::Race(race) => entity.race == race,
        TargetMatcher::Class(class) => entity.class == class,
        TargetMatcher::Owner(player) => entity.owner == player,
    }
}

/// Whether `entity` is one that `matcher` lets a player choose.
///
/// The matcher already names the player whose cards it accepts, so the acting
/// player `owner` does not change the answer.
pub fn match_entity(owner: PlayerId, entity: &CardInstance, matcher: TargetMatcher) -> (b: bool)
    ensures
        b == matches_entity(entity@, matcher),
{
    match matcher {
        TargetMatcher::Race(race) => entity.race == race,
        TargetMatcher::Class(class) => entity.class == class,
        TargetMatcher::Owner(player) => entity.owner == player,
    }
}

/// `target` with every list of chosen ids in it replaced by `selecteds`.
pub open spec fn with_chosen_ids(target: TargetView, selecteds: Seq<InstanceId>) -> TargetView
    decreases target,
{
    match target {
        TargetView::Ids(_) => TargetView::Ids(selecteds),
        TargetView::And(a, b) => TargetView::And(
            Box::new(with_chosen_ids(*a, selecteds)),
            Box::new(with_chosen_ids(*b, selecteds)),
        ),
        TargetView::Or(a, b) => TargetView::Or(
            Box::new(with_chosen_ids(*a, selecteds)),
            Box::new(with_chosen_ids(*b, selecteds)),
        ),
        other => other,
    }
}

/// `effect` aimed at what the player chose: every list of chosen ids in its target
/// is replaced by `selecteds`. Effects aimed at players are left as they are.
pub open spec fn with_chosen_target(effect: EffectView, selecteds: Seq<InstanceId>) -> EffectView {
    match effect {
        EffectView::Heal { initiator, target, amount } => EffectView::Heal {
            initiator,
            target: with_chosen_ids(target, selecteds),
            amount,
        },
        EffectView::Destroy { initiator, target } => EffectView::Destroy {
            initiator,
            target: with_chosen_ids(target, selecteds),
        },
        EffectView::DealDamage { initiator, target, amount } => EffectView::DealDamage {
            initiator,
            target: with_chosen_ids(target, selecteds),
            amount,
        },
        EffectView::Attack { initiator, target } => EffectView::Attack {
            initiator,
            target: with_chosen_ids(target, selecteds),
        },
        EffectView::Boost { initiator, attack, hp, target } => EffectView::Boost {
            initiator,
            attack,
            hp,
            target: with_chosen_ids(target, selecteds),
        },
        other => other,
    }
}

/// Each of `effects` aimed at what the player chose.
pub open spec fn all_with_chosen_target(effects: Seq<EffectView>, selecteds: Seq<InstanceId>) -> Seq<
    EffectView,
> {
    effects.map_values(|e: EffectView| with_chosen_target(e, selecteds))
}

/// `target` with every list of chosen ids in it replaced by `selecteds`.
pub fn replace_target_ids(target: &Target, selecteds: &Vec<InstanceId>) -> (r: Target)
    ensures
        r@ == with_chosen_ids(target@, selecteds@),
    decreases target,
{
    match target {
        Target::Ids(_) => Target::Ids(clone_ids(selecteds)),
        Target::And(a, b) => {
            let left = replace_target_ids(a, selecteds);
            let right = replace_target_ids(b, selecteds);
            Target::And(Box::new(left), Box::new(right))
        },
        Target::Or(a, b) => {
            let left = replace_target_ids(a, selecteds);
            let right = replace_target_ids(b, selecteds);
            Target::Or(Box::new(left), Box::new(right))
        },
        other => other.clone(),
    }
}

/// `effect` aimed at what the player chose.
pub fn map_to_choosen_target(effect: &Effect, selecteds: &Vec<InstanceId>) -> (r: Effect)
    ensures
        r@ == with_chosen_target(effect@, selecteds@),
{
    match effect {
        Effect::Heal { initiator, target, amount } => Effect::Heal {
            initiator: *initiator,
            target: replace_target_ids(target, selecteds),
            amount: *amount,
        },
        Effect::Destroy { initiator, target } => Effect::Destroy {
            initiator: *initiator,
            target: replace_target_ids(target, selecteds),
        },
        Effect::DealDamage { initiator, target, amount } => Effect::DealDamage {
            initiator: *initiator,
            target: replace_target_ids(target, selecteds),
            amount: *amount,
        },
        Effect::Attack { initiator, target } => Effect::Attack {
            initiator: *initiator,
            target: replace_target_ids(target, selecteds),
        },
        Effect::Boost { initiator, attack, hp, target } => Effect::Boost {
            initiator: *initiator,
            attack: *attack,
            hp: *hp,
            target: replace_target_ids(target, selecteds),
        },
        other => other.clone(),
    }
}

/// Each of `effects` aimed at what the player chose.
pub fn map_all_to_choosen_target(effects: &Vec<Effect>, selecteds: &Vec<InstanceId>) -> (r: Vec<
    Effect,
>)
    ensures
        effects_view(r@) == all_with_chosen_target(effects_view(effects@), selecteds@),
{
    let mut out: Vec<Effect> = Vec::new();
    let mut i: usize = 0;
    while i < effects.len()
        invariant
            i <= effects.len(),
            out.len() == i,
            forall|j: int| 0 <= j < i ==> out@[j]@ == with_chosen_target(effects@[j]@, selecteds@),
        decreases effects.len() - i,
    {
        out.push(map_to_choosen_target(&effects[i], selecteds));
        i += 1;
    }
    assert(effects_view(out@) =~= all_with_chosen_target(effects_view(effects@), selecteds@));
    out
}

} // verus!
