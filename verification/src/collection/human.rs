//! The cards of the humans.

use crate::collection::types::{
    template_effects_view, templates_view, CardTemplate, CardTemplateView, PlayTargetTemplate,
    PlayerTemplateTarget, Side, TargetMatcherTemplate, TemplateEffect, TemplateEffectView,
    TemplateTarget,
};
use crate::collection::{boost, monster, monster_view, spell, spell_view, Class, Race};
use vstd::prelude::*;

verus! {

/// The human cards, in the order of the catalog.
pub open spec fn collection_view() -> Seq<CardTemplateView> {
    seq![
        bras_droit_view(),
        chevalier_view(),
        fanfare_view(),
        ecuyer_view(),
        archer_view(),
    ]
}

/// The human cards, in the order of the catalog.
pub fn get_collection() -> (r: Vec<CardTemplate>)
    ensures
        templates_view(r@) == collection_view(),
{
    let r = vec![
        bras_droit(),
        chevalier(),
        fanfare(),
        ecuyer(),
        archer(),
    ];
    assert(templates_view(r@) =~= collection_view());
    r
}

/// Bras droit: the right hand of the king.
pub open spec fn bras_droit_view() -> CardTemplateView {
    monster_view(
        1002,
        2,
        "Bras droit"@,
        "Le bras droit du roi"@,
        5,
        5,
        Race::HUMAN,
        Class::COMMON,
        Seq::empty(),
        Seq::empty(),
        Seq::empty(),
        Seq::empty(),
        None,
    )
}

/// Bras droit: the right hand of the king.
pub fn bras_droit() -> (t: CardTemplate)
    ensures
        t@ == bras_droit_view(),
{
    monster(1002, 2, "Bras droit", "Le bras droit du roi", 5, 5, Race::HUMAN, Class::COMMON).build()
}

/// Chevalier: summons a squire for its owner when it is played.
pub open spec fn chevalier_view() -> CardTemplateView {
    monster_view(
        1004,
        3,
        "Chevalier"@,
        "Invoque 1 ecuyer"@,
        3,
        3,
        Race::HUMAN,
        Class::COMMON,
        Seq::empty(),
        seq![
            TemplateEffectView::Summon {
                side: PlayerTemplateTarget::Player,
                target: ecuyer_view(),
            },
        ],
        Seq::empty(),
        Seq::empty(),
        None,
    )
}

/// Chevalier: summons a squire for its owner when it is played.
pub fn chevalier() -> (t: CardTemplate)
    ensures
        t@ == chevalier_view(),
{
    let on_play = vec![
        TemplateEffect::Summon { side: PlayerTemplateTarget::Player, target: ecuyer() },
    ];
    assert(template_effects_view(on_play@) =~= seq![
        TemplateEffectView::Summon { side: PlayerTemplateTarget::Player, target: ecuyer_view() },
    ]);
    monster(
        1004,
        3,
        "Chevalier",
        "Invoque 1 ecuyer",
        3,
        3,
        Race::HUMAN,
        Class::COMMON,
    )
    .on_play(on_play)
    .build()
}

/// Fanfare: gives the monsters of its owner +2/+2.
pub open spec fn fanfare_view() -> CardTemplateView {
    spell_view(
        1001,
        2,
        "Fanfare"@,
        "+2/+2 a tout vos monstres"@,
        Race::HUMAN,
        Class::COMMON,
        seq![
            TemplateEffectView::Boost { target: TemplateTarget::Allies, attack: 2, hp: 2 },
        ],
        None,
    )
}

/// Fanfare: gives the monsters of its owner +2/+2.
pub fn fanfare() -> (t: CardTemplate)
    ensures
        t@ == fanfare_view(),
{
    let effect = vec![
        boost(TemplateTarget::Allies, 2, 2),
    ];
    assert(template_effects_view(effect@) =~= seq![
        TemplateEffectView::Boost { target: TemplateTarget::Allies, attack: 2, hp: 2 },
    ]);
    spell(
        1001,
        2,
        "Fanfare",
        "+2/+2 a tout vos monstres",
        Race::HUMAN,
        Class::COMMON,
    )
    .effect(effect)
    .build()
}

/// Ecuyer: a young squire.
pub open spec fn ecuyer_view() -> CardTemplateView {
    monster_view(
        1003,
        1,
        "Ecuyer"@,
        "Une jeune recrue"@,
        1,
        1,
        Race::HUMAN,
        Class::COMMON,
        Seq::empty(),
        Seq::empty(),
        Seq::empty(),
        Seq::empty(),
        None,
    )
}

/// Ecuyer: a young squire.
pub fn ecuyer() -> (t: CardTemplate)
    ensures
        t@ == ecuyer_view(),
{
    monster(1003, 1, "Ecuyer", "Une jeune recrue", 1, 1, Race::HUMAN, Class::COMMON).build()
}

/// Archer: destroys one enemy monster of its owner's choice when it is played.
pub open spec fn archer_view() -> CardTemplateView {
    monster_view(
        1005,
        2,
        "Archer"@,
        "On play: Choisie un monstre adverse : le detruit"@,
        4,
        4,
        Race::HUMAN,
        Class::COMMON,
        Seq::empty(),
        seq![TemplateEffectView::Destroy { target: TemplateTarget::Choose }],
        Seq::empty(),
        Seq::empty(),
        Some((PlayTargetTemplate {
            strict: false,
            amount: 1,
            matcher: TargetMatcherTemplate::Side(Side::Enemy),
        })),
    )
}

/// Archer: destroys one enemy monster of its owner's choice when it is played.
pub fn archer() -> (t: CardTemplate)
    ensures
        t@ == archer_view(),
{
    let on_play = vec![
        TemplateEffect::Destroy { target: TemplateTarget::Choose },
    ];
    assert(template_effects_view(on_play@) =~= seq![
        TemplateEffectView::Destroy { target: TemplateTarget::Choose },
    ]);
    let choice = PlayTargetTemplate {
        strict: false,
        amount: 1,
        matcher: TargetMatcherTemplate::Side(Side::Enemy),
    };
    monster(
        1005,
        2,
        "Archer",
        "On play: Choisie un monstre adverse : le detruit",
        4,
        4,
        Race::HUMAN,
        Class::COMMON,
    )
    .on_play_with_target_choice(on_play, choice)
    .build()
}

} // verus!
