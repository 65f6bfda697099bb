//! The cards of the dragons.

use crate::collection::types::{
    template_effects_view, templates_view, CardTemplate, CardTemplateView, TemplateEffectView,
    TemplateTarget,
};
use crate::collection::{heal, monster, monster_view, Class, Race};
use vstd::prelude::*;

verus! {

/// The dragon cards, in the order of the catalog.
pub open spec fn collection_view() -> Seq<CardTemplateView> {
    seq![
        feerique_view(),
    ]
}

/// The dragon cards, in the order of the catalog.
pub fn get_collection() -> (r: Vec<CardTemplate>)
    ensures
        templates_view(r@) == collection_view(),
{
    let r = vec![
        feerique(),
    ];
    assert(templates_view(r@) =~= collection_view());
    r
}

/// Féérique: heals its allies by five when it attacks.
pub open spec fn feerique_view() -> CardTemplateView {
    monster_view(
        2001,
        5,
        "Féérique"@,
        "Attaque: soigne tout les alliés de 5 hp"@,
        7,
        7,
        Race::DRAGON,
        Class::COMMON,
        Seq::empty(),
        Seq::empty(),
        seq![TemplateEffectView::Heal { target: TemplateTarget::Allies, amount: 5 }],
        Seq::empty(),
        None,
    )
}

/// Féérique: heals its allies by five when it attacks.
pub fn feerique() -> (t: CardTemplate)
    ensures
        t@ == feerique_view(),
{
    let on_attack = vec![
        heal(TemplateTarget::Allies, 5),
    ];
    assert(template_effects_view(on_attack@) =~= seq![
        TemplateEffectView::Heal { target: TemplateTarget::Allies, amount: 5 },
    ]);
    monster(
        2001,
        5,
        "Féérique",
        "Attaque: soigne tout les alliés de 5 hp",
        7,
        7,
        Race::DRAGON,
        Class::COMMON,
    )
    .on_attack(on_attack)
    .build()
}

} // verus!
