//! The cards of the demons.

use crate::collection::types::{
    template_effects_view, templates_view, CardTemplate, CardTemplateView, TemplateEffectView,
    TemplateTarget,
};
use crate::collection::{deal_damage, monster, monster_view, Class, Race};
use vstd::prelude::*;

verus! {

/// The demon cards, in the order of the catalog.
pub open spec fn collection_view() -> Seq<CardTemplateView> {
    seq![
        indicible_view(),
    ]
}

/// The demon cards, in the order of the catalog.
pub fn get_collection() -> (r: Vec<CardTemplate>)
    ensures
        templates_view(r@) == collection_view(),
{
    let r = vec![
        indicible(),
    ];
    assert(templates_view(r@) =~= collection_view());
    r
}

/// Indicible: deals three damage to every enemy monster when it dies.
pub open spec fn indicible_view() -> CardTemplateView {
    monster_view(
        3,
        1,
        "Indicible"@,
        "Mort: inflige 3 degats a tout les adversaires"@,
        1,
        1,
        Race::DEMON,
        Class::COMMON,
        Seq::empty(),
        Seq::empty(),
        Seq::empty(),
        seq![
            TemplateEffectView::DealDamage { target: TemplateTarget::Ennemies, amount: 3 },
        ],
        None,
    )
}

/// Indicible: deals three damage to every enemy monster when it dies.
pub fn indicible() -> (t: CardTemplate)
    ensures
        t@ == indicible_view(),
{
    let on_death = vec![
        deal_damage(TemplateTarget::Ennemies, 3),
    ];
    assert(template_effects_view(on_death@) =~= seq![
        TemplateEffectView::DealDamage { target: TemplateTarget::Ennemies, amount: 3 },
    ]);
    monster(
        3,
        1,
        "Indicible",
        "Mort: inflige 3 degats a tout les adversaires",
        1,
        1,
        Race::DEMON,
        Class::COMMON,
    )
    .on_death(on_death)
    .build()
}

} // verus!
