//! Card templates: what a card is before it belongs to a game.
//!
//! A template names no player and no instance. Instantiating it binds its effects
//! to the instance that carries them, see [`convert_to_effect`].

use crate::collection::{Class, Race};
use crate::game::card::{clone_keywords, Keyword};
use crate::game::effects::{Effect, EffectView, PlayerTarget, Target, TargetView};
use crate::game::types::{InstanceId, PlayerId};
use vstd::prelude::*;

verus! {

/// Identifies a template within the catalog.
pub type TemplateId = usize;

/// What a spell template does when cast.
#[derive(Debug)]
pub struct SpellTemplate {
    pub effect: Vec<TemplateEffect>,
}

/// The authored definition of a card.
#[derive(Debug)]
pub struct CardTemplate {
    pub id: TemplateId,
    pub cost: usize,
    pub name: String,
    pub description: String,
    pub race: Race,
    pub class: Class,
    pub card_type: CardTypeTemplate,
    pub play_target: Option<PlayTargetTemplate>,
}

/// What the player must choose when playing a card, before the sides are known.
#[derive(Clone, Copy, Debug, PartialEq, Eq, Structural)]
pub struct PlayTargetTemplate {
    pub strict: bool,
    pub amount: usize,
    pub matcher: TargetMatcherTemplate,
}

impl PlayTargetTemplate {
    /// The constraint as seen by `owner`, whose opponent is `oponent_id`.
    pub fn convert(&self, owner: PlayerId, oponent_id: PlayerId) -> (r: PlayTarget)
        ensures
            r == self.bind(owner, oponent_id),
    {
        PlayTarget {
            strict: self.strict,
            amount: self.amount,
            matcher: self.matcher.convert(owner, oponent_id),
        }
    }

    /// The constraint as seen by `owner`, whose opponent is `oponent_id`.
    pub open spec fn bind(self, owner: PlayerId, oponent_id: PlayerId) -> PlayTarget {
        PlayTarget {
            strict: self.strict,
            amount: self.amount,
            matcher: self.matcher.bind(owner, oponent_id),
        }
    }
}

/// What the player must choose when playing a card.
///
/// `strict` asks for exactly `amount` targets, otherwise `amount` is the most allowed.
#[derive(Clone, Copy, Debug, PartialEq, Eq, Structural)]
pub struct PlayTarget {
    pub strict: bool,
    pub amount: usize,
    pub matcher: TargetMatcher,
}

/// Which entities a player may choose.
#[derive(Clone, Copy, Debug, PartialEq, Eq, Structural)]
pub enum TargetMatcher {
    Race(Race),
    Class(Class),
    Owner(PlayerId),
}

/// A side of the board, seen from the player who acts.
#[derive(Clone, Copy, Debug, PartialEq, Eq, Structural)]
pub enum Side {
    Player,
    Enemy,
}

/// Which entities a player may choose, before the sides are known.
#[derive(Clone, Copy, Debug, PartialEq, Eq, Structural)]
pub enum TargetMatcherTemplate {
    Race(Race),
    Class(Class),
    Side(Side),
}

impl TargetMatcherTemplate {
    /// The matcher as seen by `owner`, whose opponent is `oponent_id`.
    pub fn convert(&self, owner: PlayerId, oponent_id: PlayerId) -> (r: TargetMatcher)
        ensures
            r == self.bind(owner, oponent_id),
    {
        match self {
            TargetMatcherTemplate::Race(race) => TargetMatcher::Race(*race),
            TargetMatcherTemplate::Class(class) => TargetMatcher::Class(*class),
            TargetMatcherTemplate::Side(side) => match side {
                Side::Player => TargetMatcher::Owner(owner),
                Side::Enemy => TargetMatcher::Owner(oponent_id),
            },
        }
    }

    /// The matcher as seen by `owner`, whose opponent is `oponent_id`.
    pub open spec fn bind(self, owner: PlayerId, oponent_id: PlayerId) -> TargetMatcher {
        match self {
            TargetMatcherTemplate::Race(race) => TargetMatcher::Race(race),
            TargetMatcherTemplate::Class(class) => TargetMatcher::Class(class),
            TargetMatcherTemplate::Side(Side::Player) => TargetMatcher::Owner(owner),
            TargetMatcherTemplate::Side(Side::Enemy) => TargetMatcher::Owner(oponent_id),
        }
    }
}

/// A monster or a spell, as authored.
#[derive(Debug)]
pub enum CardTypeTemplate {
    Monster(MonsterTemplate),
    Spell(SpellTemplate),
}

/// The authored definition of a monster.
#[derive(Debug)]
pub struct MonsterTemplate {
    pub attack: usize,
    pub hp: usize,
    pub keywords: Vec<Keyword>,
    pub on_play: Vec<TemplateEffect>,
    pub on_attack: Vec<TemplateEffect>,
    pub on_death: Vec<TemplateEffect>,
}

/// Whom an authored effect is aimed at.
#[derive(Debug)]
pub enum TemplateTarget {
    EnnemyPlayer,
    Player,
    BothPlayers,
    ItSelf,
    Allies,
    Ennemies,
    AllMonsters,
    All,
    Choose,
    Matching(TargetMatcherTemplate),
    And(Box<TemplateTarget>, Box<TemplateTarget>),
    Or(Box<TemplateTarget>, Box<TemplateTarget>),
}

/// Which players an authored effect is aimed at.
#[derive(Clone, Copy, Debug, PartialEq, Eq, Structural)]
pub enum PlayerTemplateTarget {
    EnnemyPlayer,
    Player,
    BothPlayers,
}

/// An effect as authored, not yet bound to the instance that carries it.
#[allow(inconsistent_fields)]
#[derive(Debug)]
pub enum TemplateEffect {
    Boost { target: TemplateTarget, attack: usize, hp: usize },
    MakeDraw { player: PlayerTemplateTarget, amount: usize },
    Heal { target: TemplateTarget, amount: usize },
    Destroy { target: TemplateTarget },
    DealDamage { target: TemplateTarget, amount: usize },
    Attack { target: TemplateTarget },
    Summon { side: PlayerTemplateTarget, target: CardTemplate },
}

/// The mathematical value of a [`SpellTemplate`].
pub ghost struct SpellTemplateView {
    pub effect: Seq<TemplateEffectView>,
}

/// The mathematical value of a [`MonsterTemplate`].
pub ghost struct MonsterTemplateView {
    pub attack: usize,
    pub hp: usize,
    pub keywords: Seq<Keyword>,
    pub on_play: Seq<TemplateEffectView>,
    pub on_attack: Seq<TemplateEffectView>,
    pub on_death: Seq<TemplateEffectView>,
}

/// The mathematical value of a [`CardTypeTemplate`].
pub ghost enum CardTypeTemplateView {
    Monster(MonsterTemplateView),
    Spell(SpellTemplateView),
}

/// The mathematical value of a [`CardTemplate`].
pub ghost struct CardTemplateView {
    pub id: TemplateId,
    pub cost: usize,
    pub name: Seq<char>,
    pub description: Seq<char>,
    pub race: Race,
    pub class: Class,
    pub card_type: CardTypeTemplateView,
    pub play_target: Option<PlayTargetTemplate>,
}

/// The mathematical value of a [`TemplateEffect`].
#[allow(inconsistent_fields)]
pub ghost enum TemplateEffectView {
    Boost { target: TemplateTarget, attack: usize, hp: usize },
    MakeDraw { player: PlayerTemplateTarget, amount: usize },
    Heal { target: TemplateTarget, amount: usize },
    Destroy { target: TemplateTarget },
    DealDamage { target: TemplateTarget, amount: usize },
    Attack { target: TemplateTarget },
    Summon { side: PlayerTemplateTarget, target: CardTemplateView },
}

/// The values of a list of authored effects, in order.
pub open spec fn template_effects_view(effects: Seq<TemplateEffect>) -> Seq<TemplateEffectView>
    decreases effects,
{
    Seq::new(
        effects.len(),
        |i: int|
            if 0 <= i < effects.len() {
                effects[i].model()
            } else {
                arbitrary()
            },
    )
}

impl TemplateEffect {
    /// The value of this effect.
    pub open spec fn model(&self) -> TemplateEffectView
        decreases self,
    {
        match self {
            TemplateEffect::Boost { target, attack, hp } => TemplateEffectView::Boost {
                target: *target,
                attack: *attack,
                hp: *hp,
            },
            TemplateEffect::MakeDraw { player, amount } => TemplateEffectView::MakeDraw {
                player: *player,
                amount: *amount,
            },
            TemplateEffect::Heal { target, amount } => TemplateEffectView::Heal {
                target: *target,
                amount: *amount,
            },
            TemplateEffect::Destroy { target } => TemplateEffectView::Destroy { target: *target },
            TemplateEffect::DealDamage { target, amount } => TemplateEffectView::DealDamage {
                target: *target,
                amount: *amount,
            },
            TemplateEffect::Attack { target } => TemplateEffectView::Attack { target: *target },
            TemplateEffect::Summon { side, target } => TemplateEffectView::Summon {
                side: *side,
                target: target.model(),
            },
        }
    }
}

impl SpellTemplate {
    /// The value of this spell template.
    pub open spec fn model(&self) -> SpellTemplateView
        decreases self,
    {
        SpellTemplateView { effect: template_effects_view(self.effect@) }
    }
}

impl MonsterTemplate {
    /// The value of this monster template.
    pub open spec fn model(&self) -> MonsterTemplateView
        decreases self,
    {
        MonsterTemplateView {
            attack: self.attack,
            hp: self.hp,
            keywords: self.keywords@,
            on_play: template_effects_view(self.on_play@),
            on_attack: template_effects_view(self.on_attack@),
            on_death: template_effects_view(self.on_death@),
        }
    }
}

impl CardTypeTemplate {
    /// The value of this template payload.
    pub open spec fn model(&self) -> CardTypeTemplateView
        decreases self,
    {
        match self {
            CardTypeTemplate::Monster(m) => CardTypeTemplateView::Monster(m.model()),
            CardTypeTemplate::Spell(s) => CardTypeTemplateView::Spell(s.model()),
        }
    }
}

impl CardTemplate {
    /// The value of this template.
    pub open spec fn model(&self) -> CardTemplateView
        decreases self,
    {
        CardTemplateView {
            id: self.id,
            cost: self.cost,
            name: self.name@,
            description: self.description@,
            race: self.race,
            class: self.class,
            card_type: self.card_type.model(),
            play_target: self.play_target,
        }
    }
}

impl View for TemplateEffect {
    type V = TemplateEffectView;

    open spec fn view(&self) -> TemplateEffectView {
        self.model()
    }
}

impl View for SpellTemplate {
    type V = SpellTemplateView;

    open spec fn view(&self) -> SpellTemplateView {
        self.model()
    }
}

impl View for MonsterTemplate {
    type V = MonsterTemplateView;

    open spec fn view(&self) -> MonsterTemplateView {
        self.model()
    }
}

impl View for CardTypeTemplate {
    type V = CardTypeTemplateView;

    open spec fn view(&self) -> CardTypeTemplateView {
        self.model()
    }
}

impl View for CardTemplate {
    type V = CardTemplateView;

    open spec fn view(&self) -> CardTemplateView {
        self.model()
    }
}

impl Clone for TemplateTarget {
    fn clone(&self) -> (r: Self)
        ensures
            r == *self,
        decreases self,
    {
        match self {
            TemplateTarget::EnnemyPlayer => TemplateTarget::EnnemyPlayer,
            TemplateTarget::Player => TemplateTarget::Player,
            TemplateTarget::BothPlayers => TemplateTarget::BothPlayers,
            TemplateTarget::ItSelf => TemplateTarget::ItSelf,
            TemplateTarget::Allies => TemplateTarget::Allies,
            TemplateTarget::Ennemies => TemplateTarget::Ennemies,
            TemplateTarget::AllMonsters => TemplateTarget::AllMonsters,
            TemplateTarget::All => TemplateTarget::All,
            TemplateTarget::Choose => TemplateTarget::Choose,
            TemplateTarget::Matching(m) => TemplateTarget::Matching(*m),
            TemplateTarget::And(a, b) => {
                let left = (**a).clone();
                let right = (**b).clone();
                TemplateTarget::And(Box::new(left), Box::new(right))
            },
            TemplateTarget::Or(a, b) => {
                let left = (**a).clone();
                let right = (**b).clone();
                TemplateTarget::Or(Box::new(left), Box::new(right))
            },
        }
    }
}

/// Copies a list of authored effects.
pub fn clone_template_effects(effects: &Vec<TemplateEffect>) -> (r: Vec<TemplateEffect>)
    ensures
        template_effects_view(r@) == template_effects_view(effects@),
    decreases effects,
{
    let mut out: Vec<TemplateEffect> = Vec::new();
    let mut i: usize = 0;
    while i < effects.len()
        invariant
            i <= effects.len(),
            out.len() == i,
            forall|j: int| 0 <= j < i ==> out@[j]@ == effects@[j]@,
        decreases effects.len() - i,
    {
        out.push(effects[i].clone());
        i += 1;
    }
    assert(template_effects_view(out@) =~= template_effects_view(effects@));
    out
}

impl Clone for TemplateEffect {
    fn clone(&self) -> (r: Self)
        ensures
            r@ == self@,
        decreases self,
    {
        match self {
            TemplateEffect::Boost { target, attack, hp } => TemplateEffect::Boost {
                target: target.clone(),
                attack: *attack,
                hp: *hp,
            },
            TemplateEffect::MakeDraw { player, amount } => TemplateEffect::MakeDraw {
                player: *player,
                amount: *amount,
            },
            TemplateEffect::Heal { target, amount } => TemplateEffect::Heal {
                target: target.clone(),
                amount: *amount,
            },
            TemplateEffect::Destroy { target } => TemplateEffect::Destroy {
                target: target.clone(),
            },
            TemplateEffect::DealDamage { target, amount } => TemplateEffect::DealDamage {
                target: target.clone(),
                amount: *amount,
            },
            TemplateEffect::Attack { target } => TemplateEffect::Attack { target: target.clone() },
            TemplateEffect::Summon { side, target } => TemplateEffect::Summon {
                side: *side,
                target: target.clone(),
            },
        }
    }
}

impl Clone for SpellTemplate {
    fn clone(&self) -> (r: Self)
        ensures
            r@ == self@,
        decreases self,
    {
        SpellTemplate { effect: clone_template_effects(&self.effect) }
    }
}

impl Clone for MonsterTemplate {
    fn clone(&self) -> (r: Self)
        ensures
            r@ == self@,
        decreases self,
    {
        MonsterTemplate {
            attack: self.attack,
            hp: self.hp,
            keywords: clone_keywords(&self.keywords),
            on_play: clone_template_effects(&self.on_play),
            on_attack: clone_template_effects(&self.on_attack),
            on_death: clone_template_effects(&self.on_death),
        }
    }
}

impl Clone for CardTypeTemplate {
    fn clone(&self) -> (r: Self)
        ensures
            r@ == self@,
        decreases self,
    {
        match self {
            CardTypeTemplate::Monster(m) => CardTypeTemplate::Monster(m.clone()),
            CardTypeTemplate::Spell(s) => CardTypeTemplate::Spell(s.clone()),
        }
    }
}

impl Clone for CardTemplate {
    fn clone(&self) -> (r: Self)
        ensures
            r@ == self@,
        decreases self,
    {
        CardTemplate {
            id: self.id,
            cost: self.cost,
            name: self.name.clone(),
            description: self.description.clone(),
            race: self.race,
            class: self.class,
            card_type: self.card_type.clone(),
            play_target: self.play_target,
        }
    }
}

/// The runtime descriptor that an authored target stands for.
///
/// A target left to the player's choice starts as an empty list of ids, which
/// the command layer fills in.
pub open spec fn template_target_view(target: TemplateTarget) -> TargetView
    decreases target,
{
    match target {
        TemplateTarget::EnnemyPlayer => TargetView::EnnemyPlayer,
        TemplateTarget::Player => TargetView::Player,
        TemplateTarget::BothPlayers => TargetView::BothPlayers,
        TemplateTarget::ItSelf => TargetView::ItSelf,
        TemplateTarget::Allies => TargetView::Allies,
        TemplateTarget::Ennemies => TargetView::Ennemies,
        TemplateTarget::AllMonsters => TargetView::AllMonsters,
        TemplateTarget::All => TargetView::All,
        TemplateTarget::Choose => TargetView::Ids(Seq::empty()),
        TemplateTarget::Matching(m) => TargetView::Matching(m),
        TemplateTarget::And(a, b) => TargetView::And(
            Box::new(template_target_view(*a)),
            Box::new(template_target_view(*b)),
        ),
        TemplateTarget::Or(a, b) => TargetView::Or(
            Box::new(template_target_view(*a)),
            Box::new(template_target_view(*b)),
        ),
    }
}

/// The runtime descriptor that an authored player target stands for.
pub open spec fn template_player_target(target: PlayerTemplateTarget) -> PlayerTarget {
    match target {
        PlayerTemplateTarget::EnnemyPlayer => PlayerTarget::EnnemyPlayer,
        PlayerTemplateTarget::Player => PlayerTarget::Player,
        PlayerTemplateTarget::BothPlayers => PlayerTarget::BothPlayers,
    }
}

impl TemplateEffectView {
    /// The runtime effect that this authored effect becomes when `initiator_id` carries it.
    pub open spec fn bind(self, initiator_id: InstanceId) -> EffectView {
        match self {
            TemplateEffectView::MakeDraw { player, amount } => EffectView::MakeDraw {
                initiator: initiator_id,
                player: template_player_target(player),
                amount,
            },
            TemplateEffectView::Heal { target, amount } => EffectView::Heal {
                initiator: initiator_id,
                target: template_target_view(target),
                amount,
            },
            TemplateEffectView::Destroy { target } => EffectView::Destroy {
                initiator: initiator_id,
                target: template_target_view(target),
            },
            TemplateEffectView::DealDamage { target, amount } => EffectView::DealDamage {
                initiator: initiator_id,
                target: template_target_view(target),
                amount,
            },
            TemplateEffectView::Attack { target } => EffectView::Attack {
                initiator: initiator_id,
                target: template_target_view(target),
            },
            TemplateEffectView::Boost { target, attack, hp } => EffectView::Boost {
                initiator: initiator_id,
                attack,
                hp,
                target: template_target_view(target),
            },
            TemplateEffectView::Summon { side, target } => EffectView::Summon {
                initiator: initiator_id,
                side: template_player_target(side),
                target,
            },
        }
    }
}

/// The runtime effects that a list of authored effects becomes when `initiator_id` carries them.
pub open spec fn bind_all(effects: Seq<TemplateEffectView>, initiator_id: InstanceId) -> Seq<
    EffectView,
> {
    effects.map_values(|e: TemplateEffectView| e.bind(initiator_id))
}

fn convert_template_target(target: &TemplateTarget) -> (r: Target)
    ensures
        r@ == template_target_view(*target),
    decreases target,
{
    match target {
        TemplateTarget::EnnemyPlayer => Target::EnnemyPlayer,
        TemplateTarget::Player => Target::Player,
        TemplateTarget::BothPlayers => Target::BothPlayers,
        TemplateTarget::ItSelf => Target::ItSelf,
        TemplateTarget::Allies => Target::Allies,
        TemplateTarget::Ennemies => Target::Ennemies,
        TemplateTarget::AllMonsters => Target::AllMonsters,
        TemplateTarget::All => Target::All,
        TemplateTarget::Choose => Target::Ids(Vec::new()),
        TemplateTarget::Matching(target_matcher) => Target::Matching(*target_matcher),
        TemplateTarget::And(a, b) => {
            let left = convert_template_target(a);
            let right = convert_template_target(b);
            Target::And(Box::new(left), Box::new(right))
        },
        TemplateTarget::Or(a, b) => {
            let left = convert_template_target(a);
            let right = convert_template_target(b);
            Target::Or(Box::new(left), Box::new(right))
        },
    }
}

fn convert_template_player_target(target: &PlayerTemplateTarget) -> (r: PlayerTarget)
    ensures
        r == template_player_target(*target),
{
    match target {
        PlayerTemplateTarget::EnnemyPlayer => PlayerTarget::EnnemyPlayer,
        PlayerTemplateTarget::Player => PlayerTarget::Player,
        PlayerTemplateTarget::BothPlayers => PlayerTarget::BothPlayers,
    }
}

/// Binds an authored effect to the instance `initiator_id` that carries it.
pub fn convert_to_effect(teff: &TemplateEffect, initiator_id: InstanceId) -> (r: Effect)
    ensures
        r@ == teff@.bind(initiator_id),
{
    match teff {
        TemplateEffect::MakeDraw { player, amount } => Effect::MakeDraw {
            initiator: initiator_id,
            player: convert_template_player_target(player),
            amount: *amount,
        },
        TemplateEffect::Heal { target, amount } => Effect::Heal {
            initiator: initiator_id,
            target: convert_template_target(target),
            amount: *amount,
        },
        TemplateEffect::Destroy { target } => Effect::Destroy {
            initiator: initiator_id,
            target: convert_template_target(target),
        },
        TemplateEffect::DealDamage { target, amount } => Effect::DealDamage {
            initiator: initiator_id,
            target: convert_template_target(target),
            amount: *amount,
        },
        TemplateEffect::Attack { target } => Effect::Attack {
            initiator: initiator_id,
            target: convert_template_target(target),
        },
        TemplateEffect::Boost { target, attack, hp } => Effect::Boost {
            initiator: initiator_id,
            target: convert_template_target(target),
            attack: *attack,
            hp: *hp,
        },
        TemplateEffect::Summon { side, target } => Effect::Summon {
            initiator: initiator_id,
            side: convert_template_player_target(side),
            target: target.clone(),
        },
    }
}

/// Binds a list of authored effects to the instance `initiator_id` that carries them.
pub fn convert_all(effects: &Vec<TemplateEffect>, initiator_id: InstanceId) -> (r: Vec<Effect>)
    ensures
        crate::game::effects::effects_view(r@) == bind_all(
            template_effects_view(effects@),
            initiator_id,
        ),
{
    let mut out: Vec<Effect> = Vec::new();
    let mut i: usize = 0;
    while i < effects.len()
        invariant
            i <= effects.len(),
            out.len() == i,
            forall|j: int| 0 <= j < i ==> out@[j]@ == effects@[j]@.bind(initiator_id),
        decreases effects.len() - i,
    {
        out.push(convert_to_effect(&effects[i], initiator_id));
        i += 1;
    }
    assert(crate::game::effects::effects_view(out@) =~= bind_all(
        template_effects_view(effects@),
        initiator_id,
    ));
    out
}

/// The values of a list of templates, in order.
pub open spec fn templates_view(collection: Seq<CardTemplate>) -> Seq<CardTemplateView> {
    collection.map_values(|t: CardTemplate| t@)
}

} // verus!
