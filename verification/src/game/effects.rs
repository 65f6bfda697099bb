//! Effects: the units of change that wait on the resolution queue.

use crate::collection::types::{CardTemplate, CardTemplateView, TargetMatcherTemplate};
use crate::game::events::EventType;
use crate::game::types::{InstanceId, PlayerId};
use vstd::prelude::*;

verus! {

/// Whom an effect is aimed at. Resolved into recipients when the effect runs.
#[derive(Debug)]
pub enum Target {
    EnnemyPlayer,
    Player,
    BothPlayers,
    ItSelf,
    Allies,
    Id(InstanceId),
    Ennemies,
    AllMonsters,
    All,
    Ids(Vec<InstanceId>),
    Matching(TargetMatcherTemplate),
    And(Box<Target>, Box<Target>),
    Or(Box<Target>, Box<Target>),
}

/// Which players an effect is aimed at.
#[derive(Clone, Copy, Debug, PartialEq, Eq, Structural)]
pub enum PlayerTarget {
    EnnemyPlayer,
    Player,
    BothPlayers,
    Id(PlayerId),
}

/// A change to the game, bound to the instance or player that caused it.
#[allow(inconsistent_fields)]
#[derive(Debug)]
pub enum Effect {
    IncreaseMaxMana { initiator: InstanceId, player: PlayerTarget, amount: usize },
    RefreshMana { initiator: InstanceId, player: PlayerTarget, amount: usize },
    MakeDraw { initiator: InstanceId, player: PlayerTarget, amount: usize },
    AutoDraw { player: PlayerId, amount: usize },
    Heal { initiator: InstanceId, target: Target, amount: usize },
    Destroy { initiator: InstanceId, target: Target },
    DealDamage { initiator: InstanceId, target: Target, amount: usize },
    Attack { initiator: InstanceId, target: Target },
    Boost { initiator: InstanceId, attack: usize, hp: usize, target: Target },
    Summon { initiator: InstanceId, side: PlayerTarget, target: CardTemplate },
    SummonFromHand { entity_id: InstanceId, position: usize },
    Win(PlayerId),
}

/// Effects that wait for an event.
#[derive(Debug)]
pub struct TriggeredEffect {
    pub trigger: EventType,
    pub effects: Vec<Effect>,
}

/// The mathematical value of a [`Target`].
pub ghost enum TargetView {
    EnnemyPlayer,
    Player,
    BothPlayers,
    ItSelf,
    Allies,
    Id(InstanceId),
    Ennemies,
    AllMonsters,
    All,
    Ids(Seq<InstanceId>),
    Matching(TargetMatcherTemplate),
    And(Box<TargetView>, Box<TargetView>),
    Or(Box<TargetView>, Box<TargetView>),
}

/// The mathematical value of an [`Effect`].
#[allow(inconsistent_fields)]
pub ghost enum EffectView {
    IncreaseMaxMana { initiator: InstanceId, player: PlayerTarget, amount: usize },
    RefreshMana { initiator: InstanceId, player: PlayerTarget, amount: usize },
    MakeDraw { initiator: InstanceId, player: PlayerTarget, amount: usize },
    AutoDraw { player: PlayerId, amount: usize },
    Heal { initiator: InstanceId, target: TargetView, amount: usize },
    Destroy { initiator: InstanceId, target: TargetView },
    DealDamage { initiator: InstanceId, target: TargetView, amount: usize },
    Attack { initiator: InstanceId, target: TargetView },
    Boost { initiator: InstanceId, attack: usize, hp: usize, target: TargetView },
    Summon { initiator: InstanceId, side: PlayerTarget, target: CardTemplateView },
    SummonFromHand { entity_id: InstanceId, position: usize },
    Win(PlayerId),
}

impl Target {
    /// The value of this target.
    pub open spec fn model(&self) -> TargetView
        decreases self,
    {
        match self {
            Target::EnnemyPlayer => TargetView::EnnemyPlayer,
            Target::Player => TargetView::Player,
            Target::BothPlayers => TargetView::BothPlayers,
            Target::ItSelf => TargetView::ItSelf,
            Target::Allies => TargetView::Allies,
            Target::Id(id) => TargetView::Id(*id),
            Target::Ennemies => TargetView::Ennemies,
            Target::AllMonsters => TargetView::AllMonsters,
            Target::All => TargetView::All,
            Target::Ids(ids) => TargetView::Ids(ids@),
            Target::Matching(m) => TargetView::Matching(*m),
            Target::And(a, b) => TargetView::And(Box::new(a.model()), Box::new(b.model())),
            Target::Or(a, b) => TargetView::Or(Box::new(a.model()), Box::new(b.model())),
        }
    }
}

impl View for Target {
    type V = TargetView;

    open spec fn view(&self) -> TargetView {
        self.model()
    }
}

impl View for Effect {
    type V = EffectView;

    open spec fn view(&self) -> EffectView {
        match self {
            Effect::IncreaseMaxMana { initiator, player, amount } => EffectView::IncreaseMaxMana {
                initiator: *initiator,
                player: *player,
                amount: *amount,
            },
            Effect::RefreshMana { initiator, player, amount } => EffectView::RefreshMana {
                initiator: *initiator,
                player: *player,
                amount: *amount,
            },
            Effect::MakeDraw { initiator, player, amount } => EffectView::MakeDraw {
                initiator: *initiator,
                player: *player,
                amount: *amount,
            },
            Effect::AutoDraw { player, amount } => EffectView::AutoDraw {
                player: *player,
                amount: *amount,
            },
            Effect::Heal { initiator, target, amount } => EffectView::Heal {
                initiator: *initiator,
                target: target@,
                amount: *amount,
            },
            Effect::Destroy { initiator, target } => EffectView::Destroy {
                initiator: *initiator,
                target: target@,
            },
            Effect::DealDamage { initiator, target, amount } => EffectView::DealDamage {
                initiator: *initiator,
                target: target@,
                amount: *amount,
            },
            Effect::Attack { initiator, target } => EffectView::Attack {
                initiator: *initiator,
                target: target@,
            },
            Effect::Boost { initiator, attack, hp, target } => EffectView::Boost {
                initiator: *initiator,
                attack: *attack,
                hp: *hp,
                target: target@,
            },
            Effect::Summon { initiator, side, target } => EffectView::Summon {
                initiator: *initiator,
                side: *side,
                target: target@,
            },
            Effect::SummonFromHand { entity_id, position } => EffectView::SummonFromHand {
                entity_id: *entity_id,
                position: *position,
            },
            Effect::Win(player) => EffectView::Win(*player),
        }
    }
}

/// The values of a list of effects, in order.
pub open spec fn effects_view(effects: Seq<Effect>) -> Seq<EffectView> {
    effects.map_values(|e: Effect| e@)
}

/// Copies a list of ids.
pub fn clone_ids(ids: &Vec<InstanceId>) -> (r: Vec<InstanceId>)
    ensures
        r@ == ids@,
{
    let mut out: Vec<InstanceId> = Vec::new();
    let mut i: usize = 0;
    while i < ids.len()
        invariant
            i <= ids.len(),
            out@ == ids@.subrange(0, i as int),
        decreases ids.len() - i,
    {
        out.push(ids[i]);
        i += 1;
        assert(out@ =~= ids@.subrange(0, i as int));
    }
    assert(out@ =~= ids@);
    out
}

impl Clone for Target {
    fn clone(&self) -> (r: Self)
        ensures
            r@ == self@,
        decreases self,
    {
        match self {
            Target::EnnemyPlayer => Target::EnnemyPlayer,
            Target::Player => Target::Player,
            Target::BothPlayers => Target::BothPlayers,
            Target::ItSelf => Target::ItSelf,
            Target::Allies => Target::Allies,
            Target::Id(id) => Target::Id(*id),
            Target::Ennemies => Target::Ennemies,
            Target::AllMonsters => Target::AllMonsters,
            Target::All => Target::All,
            Target::Ids(ids) => Target::Ids(clone_ids(ids)),
            Target::Matching(m) => Target::Matching(*m),
            Target::And(a, b) => {
                let left = (**a).clone();
                let right = (**b).clone();
                Target::And(Box::new(left), Box::new(right))
            },
            Target::Or(a, b) => {
                let left = (**a).clone();
                let right = (**b).clone();
                Target::Or(Box::new(left), Box::new(right))
            },
        }
    }
}

impl Clone for Effect {
    fn clone(&self) -> (r: Self)
        ensures
            r@ == self@,
    {
        match self {
            Effect::IncreaseMaxMana { initiator, player, amount } => Effect::IncreaseMaxMana {
                initiator: *initiator,
                player: *player,
                amount: *amount,
            },
            Effect::RefreshMana { initiator, player, amount } => Effect::RefreshMana {
                initiator: *initiator,
                player: *player,
                amount: *amount,
            },
            Effect::MakeDraw { initiator, player, amount } => Effect::MakeDraw {
                initiator: *initiator,
                player: *player,
                amount: *amount,
            },
            Effect::AutoDraw { player, amount } => Effect::AutoDraw {
                player: *player,
                amount: *amount,
            },
            Effect::Heal { initiator, target, amount } => Effect::Heal {
                initiator: *initiator,
                target: target.clone(),
                amount: *amount,
            },
            Effect::Destroy { initiator, target } => Effect::Destroy {
                initiator: *initiator,
                target: target.clone(),
            },
            Effect::DealDamage { initiator, target, amount } => Effect::DealDamage {
                initiator: *initiator,
                target: target.clone(),
                amount: *amount,
            },
            Effect::Attack { initiator, target } => Effect::Attack {
                initiator: *initiator,
                target: target.clone(),
            },
            Effect::Boost { initiator, attack, hp, target } => Effect::Boost {
                initiator: *initiator,
                attack: *attack,
                hp: *hp,
                target: target.clone(),
            },
            Effect::Summon { initiator, side, target } => Effect::Summon {
                initiator: *initiator,
                side: *side,
                target: target.clone(),
            },
            Effect::SummonFromHand { entity_id, position } => Effect::SummonFromHand {
                entity_id: *entity_id,
                position: *position,
            },
            Effect::Win(player) => Effect::Win(*player),
        }
    }
}

/// Copies a list of effects.
pub fn clone_effects(effects: &Vec<Effect>) -> (r: Vec<Effect>)
    ensures
        effects_view(r@) == effects_view(effects@),
{
    let mut out: Vec<Effect> = Vec::new();
    let mut i: usize = 0;
    while i < effects.len()
        invariant
            i <= effects.len(),
            out.len() == i,
            forall|j: int| 0 <= j < i ==> out@[j]@ == effects@[j]@,
        decreases effects.len() - i,
    {
        out.push(effects[i].clone());
        i += 1;
    }
    assert(effects_view(out@) =~= effects_view(effects@));
    out
}

} // verus!
