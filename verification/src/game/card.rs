//! Card instances: the cards of one game, each owned by one player.

use crate::collection::types::{
    bind_all, convert_all, CardTemplate, CardTemplateView, CardTypeTemplate, CardTypeTemplateView,
    PlayTarget, TemplateId,
};
use crate::collection::{Class, Race};
use crate::game::effects::{clone_effects, effects_view, Effect, EffectView};
use crate::game::types::{InstanceId, Location, PlayerId};
use vstd::prelude::*;

verus! {

/// A tag on a monster that bends a basic rule.
#[derive(Clone, Copy, Debug, PartialEq, Eq, Structural)]
pub enum Keyword {
    /// The monster may attack on the turn it enters the field.
    Charge,
    /// The monster may attack twice a turn.
    Windfury,
}

/// A card of one game.
#[derive(Debug)]
pub struct CardInstance {
    pub id: InstanceId,
    pub name: String,
    pub description: String,
    pub template_id: TemplateId,
    pub race: Race,
    pub class: Class,
    pub cost: usize,
    pub play_target: Option<PlayTarget>,
    pub owner: PlayerId,
    pub location: Location,
    pub card_type: CardTypeInstance,
}

/// What kind of card an instance is, with the state of that kind.
#[derive(Debug)]
pub enum CardTypeInstance {
    Monster(MonsterInstance),
    Spell(SpellInstance),
}

/// The state of a spell: the effects it queues when cast.
#[derive(Debug)]
pub struct SpellInstance {
    pub effect: Vec<Effect>,
}

/// The state of a monster.
#[derive(Debug)]
pub struct MonsterInstance {
    pub attack: usize,
    pub hp: usize,
    pub max_hp: usize,
    pub asleep: bool,
    pub attack_count: usize,
    pub keywords: Vec<Keyword>,
    pub on_play: Vec<Effect>,
    pub on_attack: Vec<Effect>,
    pub on_death: Vec<Effect>,
}

/// The mathematical value of a [`SpellInstance`].
pub ghost struct SpellView {
    pub effect: Seq<EffectView>,
}

/// The mathematical value of a [`MonsterInstance`].
pub ghost struct MonsterView {
    pub attack: usize,
    pub hp: usize,
    pub max_hp: usize,
    pub asleep: bool,
    pub attack_count: usize,
    pub keywords: Seq<Keyword>,
    pub on_play: Seq<EffectView>,
    pub on_attack: Seq<EffectView>,
    pub on_death: Seq<EffectView>,
}

/// The mathematical value of a [`CardTypeInstance`].
pub ghost enum CardTypeView {
    Monster(MonsterView),
    Spell(SpellView),
}

/// The mathematical value of a [`CardInstance`].
pub ghost struct CardView {
    pub id: InstanceId,
    pub name: Seq<char>,
    pub description: Seq<char>,
    pub template_id: TemplateId,
    pub race: Race,
    pub class: Class,
    pub cost: usize,
    pub play_target: Option<PlayTarget>,
    pub owner: PlayerId,
    pub location: Location,
    pub card_type: CardTypeView,
}

impl View for SpellInstance {
    type V = SpellView;

    open spec fn view(&self) -> SpellView {
        SpellView { effect: effects_view(self.effect@) }
    }
}

impl View for MonsterInstance {
    type V = MonsterView;

    open spec fn view(&self) -> MonsterView {
        MonsterView {
            attack: self.attack,
            hp: self.hp,
            max_hp: self.max_hp,
            asleep: self.asleep,
            attack_count: self.attack_count,
            keywords: self.keywords@,
            on_play: effects_view(self.on_play@),
            on_attack: effects_view(self.on_attack@),
            on_death: effects_view(self.on_death@),
        }
    }
}

impl View for CardTypeInstance {
    type V = CardTypeView;

    open spec fn view(&self) -> CardTypeView {
        match self {
            CardTypeInstance::Monster(m) => CardTypeView::Monster(m@),
            CardTypeInstance::Spell(s) => CardTypeView::Spell(s@),
        }
    }
}

impl View for CardInstance {
    type V = CardView;

    open spec fn view(&self) -> CardView {
        CardView {
            id: self.id,
            name: self.name@,
            description: self.description@,
            template_id: self.template_id,
            race: self.race,
            class: self.class,
            cost: self.cost,
            play_target: self.play_target,
            owner: self.owner,
            location: self.location,
            card_type: self.card_type@,
        }
    }
}

/// The values of a list of cards, in order.
pub open spec fn cards_view(cards: Seq<CardInstance>) -> Seq<CardView> {
    cards.map_values(|c: CardInstance| c@)
}

/// Whether `keyword` is among `keywords`.
pub open spec fn has_keyword(keywords: Seq<Keyword>, keyword: Keyword) -> bool {
    keywords.contains(keyword)
}

/// Whether `keyword` is among `keywords`.
pub fn contains_keyword(keywords: &Vec<Keyword>, keyword: Keyword) -> (found: bool)
    ensures
        found == has_keyword(keywords@, keyword),
{
    let mut i: usize = 0;
    while i < keywords.len()
        invariant
            i <= keywords.len(),
            forall|j: int| 0 <= j < i ==> keywords@[j] != keyword,
        decreases keywords.len() - i,
    {
        if keywords[i] == keyword {
            return true;
        }
        i += 1;
    }
    false
}

/// Copies a list of keywords.
pub fn clone_keywords(keywords: &Vec<Keyword>) -> (r: Vec<Keyword>)
    ensures
        r@ == keywords@,
{
    let mut out: Vec<Keyword> = Vec::new();
    let mut i: usize = 0;
    while i < keywords.len()
        invariant
            i <= keywords.len(),
            out@ == keywords@.subrange(0, i as int),
        decreases keywords.len() - i,
    {
        out.push(keywords[i]);
        i += 1;
        assert(out@ =~= keywords@.subrange(0, i as int));
    }
    assert(out@ =~= keywords@);
    out
}

impl Clone for SpellInstance {
    fn clone(&self) -> (r: Self)
        ensures
            r@ == self@,
    {
        SpellInstance { effect: clone_effects(&self.effect) }
    }
}

impl Clone for MonsterInstance {
    fn clone(&self) -> (r: Self)
        ensures
            r@ == self@,
    {
        MonsterInstance {
            attack: self.attack,
            hp: self.hp,
            max_hp: self.max_hp,
            asleep: self.asleep,
            attack_count: self.attack_count,
            keywords: clone_keywords(&self.keywords),
            on_play: clone_effects(&self.on_play),
            on_attack: clone_effects(&self.on_attack),
            on_death: clone_effects(&self.on_death),
        }
    }
}

impl Clone for CardTypeInstance {
    fn clone(&self) -> (r: Self)
        ensures
            r@ == self@,
    {
        match self {
            CardTypeInstance::Monster(m) => CardTypeInstance::Monster(m.clone()),
            CardTypeInstance::Spell(s) => CardTypeInstance::Spell(s.clone()),
        }
    }
}

impl Clone for CardInstance {
    fn clone(&self) -> (r: Self)
        ensures
            r@ == self@,
    {
        CardInstance {
            id: self.id,
            name: self.name.clone(),
            description: self.description.clone(),
            template_id: self.template_id,
            race: self.race,
            class: self.class,
            cost: self.cost,
            play_target: self.play_target,
            owner: self.owner,
            location: self.location,
            card_type: self.card_type.clone(),
        }
    }
}

impl CardTemplateView {
    /// The instance `entity_id` that this template gives to `player_id`, whose
    /// opponent is `opponent_id`: in the deck, asleep, at full health, with every
    /// effect bound to the new instance.
    pub open spec fn instantiate(
        self,
        entity_id: InstanceId,
        player_id: PlayerId,
        opponent_id: PlayerId,
    ) -> CardView {
        CardView {
            id: entity_id,
            name: self.name,
            description: self.description,
            template_id: self.id,
            race: self.race,
            class: self.class,
            cost: self.cost,
            play_target: match self.play_target {
                Some(t) => Some(t.bind(player_id, opponent_id)),
                None => None,
            },
            owner: player_id,
            location: Location::Deck,
            card_type: match self.card_type {
                CardTypeTemplateView::Monster(m) => CardTypeView::Monster(
                    MonsterView {
                        attack: m.attack,
                        hp: m.hp,
                        max_hp: m.hp,
                        asleep: true,
                        attack_count: 0,
                        keywords: m.keywords,
                        on_play: bind_all(m.on_play, entity_id),
                        on_attack: bind_all(m.on_attack, entity_id),
                        on_death: bind_all(m.on_death, entity_id),
                    },
                ),
                CardTypeTemplateView::Spell(s) => CardTypeView::Spell(
                    SpellView { effect: bind_all(s.effect, entity_id) },
                ),
            },
        }
    }
}

impl CardInstance {
    /// Instantiates `template` as the card `entity_id` of `player_id`.
    pub fn new(
        entity_id: usize,
        player_id: usize,
        template: &CardTemplate,
        opponent_id: usize,
    ) -> (card: Self)
        ensures
            card@ == template@.instantiate(entity_id, player_id, opponent_id),
    {
        let card_type = match &template.card_type {
            CardTypeTemplate::Monster(monster_template) => {
                CardTypeInstance::Monster(
                    MonsterInstance {
                        attack: monster_template.attack,
                        hp: monster_template.hp,
                        max_hp: monster_template.hp,
                        asleep: true,
                        attack_count: 0,
                        keywords: clone_keywords(&monster_template.keywords),
                        on_play: convert_all(&monster_template.on_play, entity_id),
                        on_attack: convert_all(&monster_template.on_attack, entity_id),
                        on_death: convert_all(&monster_template.on_death, entity_id),
                    },
                )
            },
            CardTypeTemplate::Spell(spell_template) => CardTypeInstance::Spell(
                SpellInstance { effect: convert_all(&spell_template.effect, entity_id) },
            ),
        };
        let play_target = match template.play_target {
            Some(t) => Some(t.convert(player_id, opponent_id)),
            None => None,
        };
        Self {
            id: entity_id,
            template_id: template.id,
            owner: player_id,
            location: Location::Deck,
            cost: template.cost,
            name: template.name.clone(),
            description: template.description.clone(),
            race: template.race,
            class: template.class,
            play_target,
            card_type,
        }
    }
}

} // verus!
