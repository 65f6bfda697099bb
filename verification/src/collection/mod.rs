//! The card catalog: races, classes and the templates that decks are built from.

use vstd::prelude::*;

pub mod common;
pub mod demon;
pub mod dragon;
pub mod human;
pub mod types;
use crate::collection::types::{
    template_effects_view, templates_view, CardTemplate, CardTemplateView, CardTypeTemplate,
    CardTypeTemplateView, MonsterTemplate, MonsterTemplateView, PlayTargetTemplate,
    PlayerTemplateTarget, SpellTemplate, SpellTemplateView, TemplateEffect, TemplateEffectView,
    TemplateId, TemplateTarget,
};
use crate::game::card::Keyword;

pub use crate::collection::common::get_ia_deck;

verus! {

/// The race of a card.
#[allow(non_camel_case_types)]
#[derive(Clone, Copy, PartialEq, Eq, Debug, Structural)]
pub enum Race {
    DRAGON,
    DEMON,
    HUMAN,
    COMMON,
}

/// The class of a card.
#[allow(non_camel_case_types)]
#[derive(Clone, Copy, PartialEq, Eq, Debug, Structural)]
pub enum Class {
    WARRIOR,
    MAGE,
    ROGUE,
    COMMON,
}

/// What a deck is built around: a race or a class.
#[derive(Clone, Copy, PartialEq, Eq, Debug, Structural)]
pub enum Archetype {
    Race(Race),
    Class(Class),
}

/// The effect of a draw.
pub fn draw(player: PlayerTemplateTarget, amount: usize) -> (e: TemplateEffect)
    ensures
        e@ == (TemplateEffectView::MakeDraw { player, amount }),
{
    TemplateEffect::MakeDraw { player, amount }
}

/// The effect of damage.
pub fn deal_damage(target: TemplateTarget, amount: usize) -> (e: TemplateEffect)
    ensures
        e@ == (TemplateEffectView::DealDamage { target, amount }),
{
    TemplateEffect::DealDamage { target, amount }
}

/// The effect of healing.
pub fn heal(target: TemplateTarget, amount: usize) -> (e: TemplateEffect)
    ensures
        e@ == (TemplateEffectView::Heal { target, amount }),
{
    TemplateEffect::Heal { target, amount }
}

/// The effect of a boost.
pub fn boost(target: TemplateTarget, attack: usize, hp: usize) -> (e: TemplateEffect)
    ensures
        e@ == (TemplateEffectView::Boost { target, attack, hp }),
{
    TemplateEffect::Boost { target, attack, hp }
}

/// The template of a monster with these properties.
pub open spec fn monster_view(
    id: TemplateId,
    cost: usize,
    name: Seq<char>,
    description: Seq<char>,
    attack: usize,
    hp: usize,
    race: Race,
    class: Class,
    keywords: Seq<Keyword>,
    on_play: Seq<TemplateEffectView>,
    on_attack: Seq<TemplateEffectView>,
    on_death: Seq<TemplateEffectView>,
    play_target: Option<PlayTargetTemplate>,
) -> CardTemplateView {
    CardTemplateView {
        id,
        cost,
        name,
        description,
        race,
        class,
        card_type: CardTypeTemplateView::Monster(
            MonsterTemplateView { attack, hp, keywords, on_play, on_attack, on_death },
        ),
        play_target,
    }
}

/// The template of a spell with these properties.
pub open spec fn spell_view(
    id: TemplateId,
    cost: usize,
    name: Seq<char>,
    description: Seq<char>,
    race: Race,
    class: Class,
    effect: Seq<TemplateEffectView>,
    play_target: Option<PlayTargetTemplate>,
) -> CardTemplateView {
    CardTemplateView {
        id,
        cost,
        name,
        description,
        race,
        class,
        card_type: CardTypeTemplateView::Spell(SpellTemplateView { effect }),
        play_target,
    }
}

/// A monster template in the making.
pub struct MonsterTemplateBuilder {
    id: TemplateId,
    cost: usize,
    name: String,
    desc: String,
    atk: usize,
    hp: usize,
    keywords: Vec<Keyword>,
    on_play: Vec<TemplateEffect>,
    on_attack: Vec<TemplateEffect>,
    on_death: Vec<TemplateEffect>,
    race: Race,
    class: Class,
    play_target: Option<PlayTargetTemplate>,
}

impl MonsterTemplateBuilder {
    /// The template that this builder would build now.
    pub closed spec fn built(&self) -> CardTemplateView {
        monster_view(
            self.id,
            self.cost,
            self.name@,
            self.desc@,
            self.atk,
            self.hp,
            self.race,
            self.class,
            self.keywords@,
            template_effects_view(self.on_play@),
            template_effects_view(self.on_attack@),
            template_effects_view(self.on_death@),
            self.play_target,
        )
    }

    /// A monster without keywords, effects or choice of target.
    pub fn new(
        id: TemplateId,
        cost: usize,
        name: &str,
        desc: &str,
        atk: usize,
        hp: usize,
        race: Race,
        class: Class,
    ) -> (b: Self)
        ensures
            b.built() == monster_view(
                id,
                cost,
                name@,
                desc@,
                atk,
                hp,
                race,
                class,
                Seq::empty(),
                Seq::empty(),
                Seq::empty(),
                Seq::empty(),
                None,
            ),
    {
        let b = MonsterTemplateBuilder {
            id,
            cost,
            name: String::from_str(name),
            desc: String::from_str(desc),
            atk,
            hp,
            keywords: Vec::new(),
            on_attack: Vec::new(),
            on_play: Vec::new(),
            on_death: Vec::new(),
            play_target: None,
            race,
            class,
        };
        assert(template_effects_view(b.on_play@) =~= Seq::empty());
        assert(template_effects_view(b.on_attack@) =~= Seq::empty());
        assert(template_effects_view(b.on_death@) =~= Seq::empty());
        assert(b.keywords@ =~= Seq::empty());
        b
    }

    /// The same monster with the keywords `keywords`.
    pub fn keywords(self, keywords: Vec<Keyword>) -> (b: MonsterTemplateBuilder)
        ensures
            b.built().card_type is Monster,
            b.built() == (CardTemplateView {
                card_type: CardTypeTemplateView::Monster(
                    MonsterTemplateView {
                        keywords: keywords@,
                        ..self.built().card_type->Monster_0
                    },
                ),
                ..self.built()
            }),
    {
        let mut b = self;
        b.keywords = keywords;
        b
    }

    /// The same monster with `effects` as what it does when played.
    pub fn on_play(self, effects: Vec<TemplateEffect>) -> (b: Self)
        ensures
            b.built() == (CardTemplateView {
                card_type: CardTypeTemplateView::Monster(
                    MonsterTemplateView {
                        on_play: template_effects_view(effects@),
                        ..self.built().card_type->Monster_0
                    },
                ),
                ..self.built()
            }),
    {
        let mut b = self;
        b.on_play = effects;
        b
    }

    /// The same monster with `effects` as what it does when it attacks.
    pub fn on_attack(self, effects: Vec<TemplateEffect>) -> (b: Self)
        ensures
            b.built() == (CardTemplateView {
                card_type: CardTypeTemplateView::Monster(
                    MonsterTemplateView {
                        on_attack: template_effects_view(effects@),
                        ..self.built().card_type->Monster_0
                    },
                ),
                ..self.built()
            }),
    {
        let mut b = self;
        b.on_attack = effects;
        b
    }

    /// The same monster with `effects` as what it does when it dies.
    pub fn on_death(self, effects: Vec<TemplateEffect>) -> (b: Self)
        ensures
            b.built() == (CardTemplateView {
                card_type: CardTypeTemplateView::Monster(
                    MonsterTemplateView {
                        on_death: template_effects_view(effects@),
                        ..self.built().card_type->Monster_0
                    },
                ),
                ..self.built()
            }),
    {
        let mut b = self;
        b.on_death = effects;
        b
    }

    /// The same monster with `effects` as what it does when played, aimed at
    /// targets that the player chooses under the constraint `target`.
    pub fn on_play_with_target_choice(
        self,
        effects: Vec<TemplateEffect>,
        target: PlayTargetTemplate,
    ) -> (b: Self)
        ensures
            b.built() == (CardTemplateView {
                card_type: CardTypeTemplateView::Monster(
                    MonsterTemplateView {
                        on_play: template_effects_view(effects@),
                        ..self.built().card_type->Monster_0
                    },
                ),
                play_target: Some(target),
                ..self.built()
            }),
    {
        let mut b = self;
        b.on_play = effects;
        b.play_target = Some(target);
        b
    }

    /// The template.
    pub fn build(self) -> (t: CardTemplate)
        ensures
            t@ == self.built(),
    {
        CardTemplate {
            id: self.id,
            cost: self.cost,
            name: self.name,
            description: self.desc,
            race: self.race,
            class: self.class,
            play_target: self.play_target,
            card_type: CardTypeTemplate::Monster(
                MonsterTemplate {
                    attack: self.atk,
                    hp: self.hp,
                    keywords: self.keywords,
                    on_play: self.on_play,
                    on_attack: self.on_attack,
                    on_death: self.on_death,
                },
            ),
        }
    }
}

/// Starts the template of a monster.
pub fn monster(
    id: TemplateId,
    cost: usize,
    name: &str,
    desc: &str,
    atk: usize,
    hp: usize,
    race: Race,
    class: Class,
) -> (b: MonsterTemplateBuilder)
    ensures
        b.built() == monster_view(
            id,
            cost,
            name@,
            desc@,
            atk,
            hp,
            race,
            class,
            Seq::empty(),
            Seq::empty(),
            Seq::empty(),
            Seq::empty(),
            None,
        ),
{
    MonsterTemplateBuilder::new(id, cost, name, desc, atk, hp, race, class)
}

/// A spell template in the making.
pub struct SpellTemplateBuilder {
    id: TemplateId,
    cost: usize,
    name: String,
    desc: String,
    race: Race,
    class: Class,
    effect: Vec<TemplateEffect>,
    play_target: Option<PlayTargetTemplate>,
}

impl SpellTemplateBuilder {
    /// The template that this builder would build now.
    pub closed spec fn built(&self) -> CardTemplateView {
        spell_view(
            self.id,
            self.cost,
            self.name@,
            self.desc@,
            self.race,
            self.class,
            template_effects_view(self.effect@),
            self.play_target,
        )
    }

    /// A spell without effects or choice of target.
    pub fn new(id: TemplateId, cost: usize, name: &str, desc: &str, race: Race, class: Class) -> (b:
        Self)
        ensures
            b.built() == spell_view(id, cost, name@, desc@, race, class, Seq::empty(), None),
    {
        let b = SpellTemplateBuilder {
            id,
            cost,
            name: String::from_str(name),
            desc: String::from_str(desc),
            class,
            race,
            effect: Vec::new(),
            play_target: None,
        };
        assert(template_effects_view(b.effect@) =~= Seq::empty());
        b
    }

    /// The same spell with `effects` as what it does.
    pub fn effect(self, effects: Vec<TemplateEffect>) -> (b: Self)
        ensures
            b.built() == (CardTemplateView {
                card_type: CardTypeTemplateView::Spell(
                    SpellTemplateView { effect: template_effects_view(effects@) },
                ),
                ..self.built()
            }),
    {
        let mut b = self;
        b.effect = effects;
        b
    }

    /// The same spell with `effects` as what it does, aimed at targets that the
    /// player chooses under the constraint `target`.
    pub fn effect_with_target_choice(
        self,
        effects: Vec<TemplateEffect>,
        target: PlayTargetTemplate,
    ) -> (b: Self)
        ensures
            b.built() == (CardTemplateView {
                card_type: CardTypeTemplateView::Spell(
                    SpellTemplateView { effect: template_effects_view(effects@) },
                ),
                play_target: Some(target),
                ..self.built()
            }),
    {
        let mut b = self;
        b.effect = effects;
        b.play_target = Some(target);
        b
    }

    /// The template.
    pub fn build(self) -> (t: CardTemplate)
        ensures
            t@ == self.built(),
    {
        CardTemplate {
            id: self.id,
            cost: self.cost,
            name: self.name,
            description: self.desc,
            race: self.race,
            class: self.class,
            play_target: self.play_target,
            card_type: CardTypeTemplate::Spell(SpellTemplate { effect: self.effect }),
        }
    }
}

/// Starts the template of a spell.
pub fn spell(id: TemplateId, cost: usize, name: &str, desc: &str, race: Race, class: Class) -> (b:
    SpellTemplateBuilder)
    ensures
        b.built() == spell_view(id, cost, name@, desc@, race, class, Seq::empty(), None),
{
    SpellTemplateBuilder::new(id, cost, name, desc, race, class)
}

/// The whole catalog: the dragons, the demons, the humans, and the common cards.
pub open spec fn catalog() -> Seq<CardTemplateView> {
    dragon::collection_view() + demon::collection_view() + human::collection_view()
        + common::collection_view()
}

/// Which cards of the catalog a deck may hold.
#[derive(Clone, Copy)]
pub enum Shelf {
    /// The cards of this race, and those of no race.
    OfRace(Race),
    /// The cards of this class, and those of no class.
    OfClass(Class),
}

impl Shelf {
    /// Whether the template `t` is on this shelf.
    pub open spec fn holds(self, t: CardTemplateView) -> bool {
        match self {
            Shelf::OfRace(race) => t.race == race || t.race == Race::COMMON,
            Shelf::OfClass(class) => t.class == class || t.class == Class::COMMON,
        }
    }

    /// Whether `t` is on this shelf.
    pub fn test(&self, t: &CardTemplate) -> (b: bool)
        ensures
            b == self.holds(t@),
    {
        match self {
            Shelf::OfRace(race) => t.race == *race || t.race == Race::COMMON,
            Shelf::OfClass(class) => t.class == *class || t.class == Class::COMMON,
        }
    }
}

/// The templates of `all` that are on `shelf`, in order.
pub open spec fn shelved(all: Seq<CardTemplateView>, shelf: Shelf) -> Seq<CardTemplateView>
    decreases all.len(),
{
    if all.len() == 0 {
        Seq::empty()
    } else if shelf.holds(all.last()) {
        shelved(all.drop_last(), shelf).push(all.last())
    } else {
        shelved(all.drop_last(), shelf)
    }
}

/// Adds copies of `more` at the end of `all`.
fn extend(all: &mut Vec<CardTemplate>, more: &Vec<CardTemplate>)
    ensures
        templates_view(final(all)@) == templates_view(old(all)@) + templates_view(more@),
{
    let mut i: usize = 0;
    while i < more.len()
        invariant
            i <= more.len(),
            templates_view(all@) == templates_view(old(all)@) + templates_view(more@).take(
                i as int,
            ),
        decreases more.len() - i,
    {
        let ghost before = all@;
        let copy = more[i].clone();
        all.push(copy);
        assert(templates_view(all@) =~= templates_view(before).push(copy@));
        assert(templates_view(more@)[i as int] == copy@);
        i += 1;
        assert(templates_view(all@) =~= templates_view(old(all)@) + templates_view(more@).take(
            i as int,
        ));
    }
    assert(templates_view(more@).take(i as int) =~= templates_view(more@));
}

/// The whole catalog.
pub fn all_collection() -> (r: Vec<CardTemplate>)
    ensures
        templates_view(r@) == catalog(),
{
    let mut collection = dragon::get_collection();
    extend(&mut collection, &demon::get_collection());
    extend(&mut collection, &human::get_collection());
    extend(&mut collection, &common::get_collection());
    collection
}

/// The cards of the catalog that are on `shelf`.
fn from_shelf(shelf: Shelf) -> (r: Vec<CardTemplate>)
    ensures
        templates_view(r@) == shelved(catalog(), shelf),
{
    let all = all_collection();
    let mut out: Vec<CardTemplate> = Vec::new();
    let mut i: usize = 0;
    assert(templates_view(out@) =~= Seq::empty());
    while i < all.len()
        invariant
            i <= all.len(),
            templates_view(all@) == catalog(),
            templates_view(out@) == shelved(catalog().take(i as int), shelf),
        decreases all.len() - i,
    {
        proof {
            assert(catalog().take(i + 1).drop_last() =~= catalog().take(i as int));
            assert(catalog().take(i + 1).last() == all@[i as int]@);
        }
        if shelf.test(&all[i]) {
            let ghost before = out@;
            let copy = all[i].clone();
            out.push(copy);
            assert(templates_view(out@) =~= templates_view(before).push(copy@));
        }
        i += 1;
    }
    assert(catalog().take(i as int) =~= catalog());
    out
}

/// The cards that a deck built around `archetype` may hold: those of the
/// archetype's race or class, and the common ones. Around no race or no class, none.
pub open spec fn collection_of(archetype: Archetype) -> Seq<CardTemplateView> {
    match archetype {
        Archetype::Race(Race::COMMON) => Seq::empty(),
        Archetype::Class(Class::COMMON) => Seq::empty(),
        Archetype::Race(race) => shelved(catalog(), Shelf::OfRace(race)),
        Archetype::Class(class) => shelved(catalog(), Shelf::OfClass(class)),
    }
}

/// The cards that a deck built around `archetype` may hold.
pub fn get_collection(archetype: Archetype) -> (r: Vec<CardTemplate>)
    ensures
        templates_view(r@) == collection_of(archetype),
{
    match archetype {
        Archetype::Race(race) => get_collection_by_race(race),
        Archetype::Class(class) => get_collection_by_class(class),
    }
}

fn get_collection_by_class(class: Class) -> (r: Vec<CardTemplate>)
    ensures
        templates_view(r@) == collection_of(Archetype::Class(class)),
{
    match class {
        Class::WARRIOR => get_warrior_cards(),
        Class::MAGE => get_mage_cards(),
        Class::ROGUE => get_rogue_cards(),
        Class::COMMON => {
            let r: Vec<CardTemplate> = Vec::new();
            assert(templates_view(r@) =~= Seq::empty());
            r
        },
    }
}

fn get_collection_by_race(race: Race) -> (r: Vec<CardTemplate>)
    ensures
        templates_view(r@) == collection_of(Archetype::Race(race)),
{
    match race {
        Race::DRAGON => get_dragon_cards(),
        Race::DEMON => get_demon_cards(),
        Race::HUMAN => get_human_cards(),
        Race::COMMON => {
            let r: Vec<CardTemplate> = Vec::new();
            assert(templates_view(r@) =~= Seq::empty());
            r
        },
    }
}

fn get_dragon_cards() -> (r: Vec<CardTemplate>)
    ensures
        templates_view(r@) == shelved(catalog(), Shelf::OfRace(Race::DRAGON)),
{
    from_shelf(Shelf::OfRace(Race::DRAGON))
}

fn get_human_cards() -> (r: Vec<CardTemplate>)
    ensures
        templates_view(r@) == shelved(catalog(), Shelf::OfRace(Race::HUMAN)),
{
    from_shelf(Shelf::OfRace(Race::HUMAN))
}

fn get_demon_cards() -> (r: Vec<CardTemplate>)
    ensures
        templates_view(r@) == shelved(catalog(), Shelf::OfRace(Race::DEMON)),
{
    from_shelf(Shelf::OfRace(Race::DEMON))
}

fn get_warrior_cards() -> (r: Vec<CardTemplate>)
    ensures
        templates_view(r@) == shelved(catalog(), Shelf::OfClass(Class::WARRIOR)),
{
    from_shelf(Shelf::OfClass(Class::WARRIOR))
}

fn get_rogue_cards() -> (r: Vec<CardTemplate>)
    ensures
        templates_view(r@) == shelved(catalog(), Shelf::OfClass(Class::ROGUE)),
{
    from_shelf(Shelf::OfClass(Class::ROGUE))
}

fn get_mage_cards() -> (r: Vec<CardTemplate>)
    ensures
        templates_view(r@) == shelved(catalog(), Shelf::OfClass(Class::MAGE)),
{
    from_shelf(Shelf::OfClass(Class::MAGE))
}

} // verus!
