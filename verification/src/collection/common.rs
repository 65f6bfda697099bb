//! The cards that every deck may hold.

use crate::collection::types::{
    template_effects_view, templates_view, CardTemplate, CardTemplateView, PlayerTemplateTarget,
    TemplateEffectView, TemplateTarget,
};
use crate::collection::{
    boost, deal_damage, draw, heal, monster, monster_view, spell, spell_view, Archetype, Class,
    Race,
};
use crate::game::card::Keyword;
use crate::UserDeck;
use vstd::prelude::*;

verus! {

/// The common cards, in the order of the catalog.
pub open spec fn collection_view() -> Seq<CardTemplateView> {
    seq![
        recrue_view(),
        guerrier_view(),
        eclaireur_view(),
        chevalier_view(),
        cavalier_view(),
        champion_view(),
        berserker_view(),
        gardien_view(),
        geant_view(),
        dragon_view(),
        apprenti_mage_view(),
        clerc_view(),
        pyromancien_view(),
        arcaniste_view(),
        ange_gardien_view(),
        kamikaze_view(),
        necromancien_view(),
        sorciere_view(),
        vampire_view(),
        paladin_view(),
        booster_test_view(),
        healer_test_view(),
    ]
}

/// The common cards, in the order of the catalog.
pub fn get_collection() -> (r: Vec<CardTemplate>)
    ensures
        templates_view(r@) == collection_view(),
{
    let r = vec![
        recrue(),
        guerrier(),
        eclaireur(),
        chevalier(),
        cavalier(),
        champion(),
        berserker(),
        gardien(),
        geant(),
        dragon(),
        apprenti_mage(),
        clerc(),
        pyromancien(),
        arcaniste(),
        ange_gardien(),
        kamikaze(),
        necromancien(),
        sorciere(),
        vampire(),
        paladin(),
        booster_test(),
        healer_test(),
    ];
    assert(templates_view(r@) =~= collection_view());
    r
}

/// The deck with which the engine plays: the ten plain monsters twice, and one
/// of each of the ten monsters with an effect.
pub open spec fn ia_deck_cards() -> Seq<usize> {
    seq![
        1usize,
        4usize,
        5usize,
        6usize,
        7usize,
        8usize,
        9usize,
        10usize,
        11usize,
        12usize,
        1usize,
        4usize,
        5usize,
        6usize,
        7usize,
        8usize,
        9usize,
        10usize,
        11usize,
        12usize,
        13usize,
        14usize,
        15usize,
        16usize,
        17usize,
        18usize,
        19usize,
        20usize,
        21usize,
        22usize,
    ]
}

/// The deck with which the engine plays.
pub fn get_ia_deck() -> (deck: UserDeck)
    ensures
        deck.cards@ == ia_deck_cards(),
        deck.archetype == Archetype::Race(Race::DEMON),
{
    let cards = vec![
        recrue().id,
        guerrier().id,
        eclaireur().id,
        chevalier().id,
        cavalier().id,
        champion().id,
        berserker().id,
        gardien().id,
        geant().id,
        dragon().id,
        recrue().id,
        guerrier().id,
        eclaireur().id,
        chevalier().id,
        cavalier().id,
        champion().id,
        berserker().id,
        gardien().id,
        geant().id,
        dragon().id,
        apprenti_mage().id,
        clerc().id,
        pyromancien().id,
        arcaniste().id,
        ange_gardien().id,
        kamikaze().id,
        necromancien().id,
        sorciere().id,
        vampire().id,
        paladin().id,
    ];
    assert(cards@ =~= ia_deck_cards());
    UserDeck { archetype: Archetype::Race(Race::DEMON), cards }
}

/// Recrue: a plain recruit.
pub open spec fn recrue_view() -> CardTemplateView {
    monster_view(
        1,
        1,
        "Recrue"@,
        "Une simple recrue"@,
        1,
        1,
        Race::COMMON,
        Class::COMMON,
        Seq::empty(),
        Seq::empty(),
        Seq::empty(),
        Seq::empty(),
        None,
    )
}

/// Recrue: a plain recruit.
pub fn recrue() -> (t: CardTemplate)
    ensures
        t@ == recrue_view(),
{
    monster(1, 1, "Recrue", "Une simple recrue", 1, 1, Race::COMMON, Class::COMMON).build()
}

/// Guerrier: a plain warrior.
pub open spec fn guerrier_view() -> CardTemplateView {
    monster_view(
        4,
        2,
        "Guerrier"@,
        "Un guerrier courageux"@,
        2,
        2,
        Race::COMMON,
        Class::COMMON,
        Seq::empty(),
        Seq::empty(),
        Seq::empty(),
        Seq::empty(),
        None,
    )
}

/// Guerrier: a plain warrior.
pub fn guerrier() -> (t: CardTemplate)
    ensures
        t@ == guerrier_view(),
{
    monster(4, 2, "Guerrier", "Un guerrier courageux", 2, 2, Race::COMMON, Class::COMMON).build()
}

/// Éclaireur: a scout with Charge.
pub open spec fn eclaireur_view() -> CardTemplateView {
    monster_view(
        5,
        1,
        "Éclaireur"@,
        "Un éclaireur agile"@,
        1,
        1,
        Race::COMMON,
        Class::COMMON,
        seq![Keyword::Charge],
        Seq::empty(),
        Seq::empty(),
        Seq::empty(),
        None,
    )
}

/// Éclaireur: a scout with Charge.
pub fn eclaireur() -> (t: CardTemplate)
    ensures
        t@ == eclaireur_view(),
{
    let keywords = vec![Keyword::Charge];
    assert(keywords@ =~= seq![Keyword::Charge]);
    monster(
        5,
        1,
        "Éclaireur",
        "Un éclaireur agile",
        1,
        1,
        Race::COMMON,
        Class::COMMON,
    )
    .keywords(keywords)
    .build()
}

/// Chevalier: a plain knight.
pub open spec fn chevalier_view() -> CardTemplateView {
    monster_view(
        6,
        3,
        "Chevalier"@,
        "Un noble chevalier"@,
        2,
        4,
        Race::COMMON,
        Class::COMMON,
        Seq::empty(),
        Seq::empty(),
        Seq::empty(),
        Seq::empty(),
        None,
    )
}

/// Chevalier: a plain knight.
pub fn chevalier() -> (t: CardTemplate)
    ensures
        t@ == chevalier_view(),
{
    monster(6, 3, "Chevalier", "Un noble chevalier", 2, 4, Race::COMMON, Class::COMMON).build()
}

/// Cavalier: a rider with Charge.
pub open spec fn cavalier_view() -> CardTemplateView {
    monster_view(
        7,
        3,
        "Cavalier"@,
        "Un cavalier rapide"@,
        3,
        2,
        Race::COMMON,
        Class::COMMON,
        seq![Keyword::Charge],
        Seq::empty(),
        Seq::empty(),
        Seq::empty(),
        None,
    )
}

/// Cavalier: a rider with Charge.
pub fn cavalier() -> (t: CardTemplate)
    ensures
        t@ == cavalier_view(),
{
    let keywords = vec![Keyword::Charge];
    assert(keywords@ =~= seq![Keyword::Charge]);
    monster(
        7,
        3,
        "Cavalier",
        "Un cavalier rapide",
        3,
        2,
        Race::COMMON,
        Class::COMMON,
    )
    .keywords(keywords)
    .build()
}

/// Champion: a plain champion.
pub open spec fn champion_view() -> CardTemplateView {
    monster_view(
        8,
        4,
        "Champion"@,
        "Un champion puissant"@,
        4,
        4,
        Race::COMMON,
        Class::COMMON,
        Seq::empty(),
        Seq::empty(),
        Seq::empty(),
        Seq::empty(),
        None,
    )
}

/// Champion: a plain champion.
pub fn champion() -> (t: CardTemplate)
    ensures
        t@ == champion_view(),
{
    monster(8, 4, "Champion", "Un champion puissant", 4, 4, Race::COMMON, Class::COMMON).build()
}

/// Berserker: attacks twice a turn.
pub open spec fn berserker_view() -> CardTemplateView {
    monster_view(
        9,
        4,
        "Berserker"@,
        "Un berserker féroce"@,
        3,
        3,
        Race::COMMON,
        Class::COMMON,
        seq![Keyword::Windfury],
        Seq::empty(),
        Seq::empty(),
        Seq::empty(),
        None,
    )
}

/// Berserker: attacks twice a turn.
pub fn berserker() -> (t: CardTemplate)
    ensures
        t@ == berserker_view(),
{
    let keywords = vec![Keyword::Windfury];
    assert(keywords@ =~= seq![Keyword::Windfury]);
    monster(
        9,
        4,
        "Berserker",
        "Un berserker féroce",
        3,
        3,
        Race::COMMON,
        Class::COMMON,
    )
    .keywords(keywords)
    .build()
}

/// Gardien: a sturdy guard.
pub open spec fn gardien_view() -> CardTemplateView {
    monster_view(
        10,
        5,
        "Gardien"@,
        "Un gardien robuste"@,
        3,
        7,
        Race::COMMON,
        Class::COMMON,
        Seq::empty(),
        Seq::empty(),
        Seq::empty(),
        Seq::empty(),
        None,
    )
}

/// Gardien: a sturdy guard.
pub fn gardien() -> (t: CardTemplate)
    ensures
        t@ == gardien_view(),
{
    monster(10, 5, "Gardien", "Un gardien robuste", 3, 7, Race::COMMON, Class::COMMON).build()
}

/// Géant: a plain giant.
pub open spec fn geant_view() -> CardTemplateView {
    monster_view(
        11,
        6,
        "Géant"@,
        "Un géant imposant"@,
        6,
        6,
        Race::COMMON,
        Class::COMMON,
        Seq::empty(),
        Seq::empty(),
        Seq::empty(),
        Seq::empty(),
        None,
    )
}

/// Géant: a plain giant.
pub fn geant() -> (t: CardTemplate)
    ensures
        t@ == geant_view(),
{
    monster(11, 6, "Géant", "Un géant imposant", 6, 6, Race::COMMON, Class::COMMON).build()
}

/// Dragon: a dragon with Charge.
pub open spec fn dragon_view() -> CardTemplateView {
    monster_view(
        12,
        7,
        "Dragon"@,
        "Un dragon majestueux"@,
        7,
        7,
        Race::COMMON,
        Class::COMMON,
        seq![Keyword::Charge],
        Seq::empty(),
        Seq::empty(),
        Seq::empty(),
        None,
    )
}

/// Dragon: a dragon with Charge.
pub fn dragon() -> (t: CardTemplate)
    ensures
        t@ == dragon_view(),
{
    let keywords = vec![Keyword::Charge];
    assert(keywords@ =~= seq![Keyword::Charge]);
    monster(
        12,
        7,
        "Dragon",
        "Un dragon majestueux",
        7,
        7,
        Race::COMMON,
        Class::COMMON,
    )
    .keywords(keywords)
    .build()
}

/// Apprenti Mage: its owner draws a card when it is played.
pub open spec fn apprenti_mage_view() -> CardTemplateView {
    monster_view(
        13,
        2,
        "Apprenti Mage"@,
        "Apparition: piochez une carte"@,
        1,
        2,
        Race::COMMON,
        Class::COMMON,
        Seq::empty(),
        seq![
            TemplateEffectView::MakeDraw { player: PlayerTemplateTarget::Player, amount: 1 },
        ],
        Seq::empty(),
        Seq::empty(),
        None,
    )
}

/// Apprenti Mage: its owner draws a card when it is played.
pub fn apprenti_mage() -> (t: CardTemplate)
    ensures
        t@ == apprenti_mage_view(),
{
    let on_play = vec![
        draw(PlayerTemplateTarget::Player, 1),
    ];
    assert(template_effects_view(on_play@) =~= seq![
        TemplateEffectView::MakeDraw { player: PlayerTemplateTarget::Player, amount: 1 },
    ]);
    monster(
        13,
        2,
        "Apprenti Mage",
        "Apparition: piochez une carte",
        1,
        2,
        Race::COMMON,
        Class::COMMON,
    )
    .on_play(on_play)
    .build()
}

/// Clerc: heals its allies by three when it is played.
pub open spec fn clerc_view() -> CardTemplateView {
    monster_view(
        14,
        3,
        "Clerc"@,
        "Apparition: rend 3 PV à vos alliés"@,
        2,
        3,
        Race::COMMON,
        Class::COMMON,
        Seq::empty(),
        seq![TemplateEffectView::Heal { target: TemplateTarget::Allies, amount: 3 }],
        Seq::empty(),
        Seq::empty(),
        None,
    )
}

/// Clerc: heals its allies by three when it is played.
pub fn clerc() -> (t: CardTemplate)
    ensures
        t@ == clerc_view(),
{
    let on_play = vec![
        heal(TemplateTarget::Allies, 3),
    ];
    assert(template_effects_view(on_play@) =~= seq![
        TemplateEffectView::Heal { target: TemplateTarget::Allies, amount: 3 },
    ]);
    monster(
        14,
        3,
        "Clerc",
        "Apparition: rend 3 PV à vos alliés",
        2,
        3,
        Race::COMMON,
        Class::COMMON,
    )
    .on_play(on_play)
    .build()
}

/// Pyromancien: deals two damage to every enemy monster when it is played.
pub open spec fn pyromancien_view() -> CardTemplateView {
    monster_view(
        15,
        4,
        "Pyromancien"@,
        "Apparition: inflige 2 dégâts à tous les ennemis"@,
        3,
        2,
        Race::COMMON,
        Class::COMMON,
        Seq::empty(),
        seq![
            TemplateEffectView::DealDamage { target: TemplateTarget::Ennemies, amount: 2 },
        ],
        Seq::empty(),
        Seq::empty(),
        None,
    )
}

/// Pyromancien: deals two damage to every enemy monster when it is played.
pub fn pyromancien() -> (t: CardTemplate)
    ensures
        t@ == pyromancien_view(),
{
    let on_play = vec![
        deal_damage(TemplateTarget::Ennemies, 2),
    ];
    assert(template_effects_view(on_play@) =~= seq![
        TemplateEffectView::DealDamage { target: TemplateTarget::Ennemies, amount: 2 },
    ]);
    monster(
        15,
        4,
        "Pyromancien",
        "Apparition: inflige 2 dégâts à tous les ennemis",
        3,
        2,
        Race::COMMON,
        Class::COMMON,
    )
    .on_play(on_play)
    .build()
}

/// Arcaniste: both players draw two cards when it is played.
pub open spec fn arcaniste_view() -> CardTemplateView {
    monster_view(
        16,
        5,
        "Arcaniste"@,
        "Apparition: les deux joueurs piochent 2 cartes"@,
        4,
        4,
        Race::COMMON,
        Class::COMMON,
        Seq::empty(),
        seq![
            TemplateEffectView::MakeDraw { player: PlayerTemplateTarget::BothPlayers, amount: 2 },
        ],
        Seq::empty(),
        Seq::empty(),
        None,
    )
}

/// Arcaniste: both players draw two cards when it is played.
pub fn arcaniste() -> (t: CardTemplate)
    ensures
        t@ == arcaniste_view(),
{
    let on_play = vec![
        draw(PlayerTemplateTarget::BothPlayers, 2),
    ];
    assert(template_effects_view(on_play@) =~= seq![
        TemplateEffectView::MakeDraw { player: PlayerTemplateTarget::BothPlayers, amount: 2 },
    ]);
    monster(
        16,
        5,
        "Arcaniste",
        "Apparition: les deux joueurs piochent 2 cartes",
        4,
        4,
        Race::COMMON,
        Class::COMMON,
    )
    .on_play(on_play)
    .build()
}

/// Ange Gardien: heals the hero of its owner by five when it is played.
pub open spec fn ange_gardien_view() -> CardTemplateView {
    monster_view(
        17,
        4,
        "Ange Gardien"@,
        "Apparition: rend 5 PV au héros allié"@,
        3,
        4,
        Race::COMMON,
        Class::COMMON,
        Seq::empty(),
        seq![TemplateEffectView::Heal { target: TemplateTarget::Player, amount: 5 }],
        Seq::empty(),
        Seq::empty(),
        None,
    )
}

/// Ange Gardien: heals the hero of its owner by five when it is played.
pub fn ange_gardien() -> (t: CardTemplate)
    ensures
        t@ == ange_gardien_view(),
{
    let on_play = vec![
        heal(TemplateTarget::Player, 5),
    ];
    assert(template_effects_view(on_play@) =~= seq![
        TemplateEffectView::Heal { target: TemplateTarget::Player, amount: 5 },
    ]);
    monster(
        17,
        4,
        "Ange Gardien",
        "Apparition: rend 5 PV au héros allié",
        3,
        4,
        Race::COMMON,
        Class::COMMON,
    )
    .on_play(on_play)
    .build()
}

/// Kamikaze: deals three damage to everyone when it dies.
pub open spec fn kamikaze_view() -> CardTemplateView {
    monster_view(
        18,
        1,
        "Kamikaze"@,
        "Mort: inflige 3 dégâts à tous les personnages"@,
        1,
        1,
        Race::COMMON,
        Class::COMMON,
        Seq::empty(),
        Seq::empty(),
        Seq::empty(),
        seq![TemplateEffectView::DealDamage { target: TemplateTarget::All, amount: 3 }],
        None,
    )
}

/// Kamikaze: deals three damage to everyone when it dies.
pub fn kamikaze() -> (t: CardTemplate)
    ensures
        t@ == kamikaze_view(),
{
    let on_death = vec![
        deal_damage(TemplateTarget::All, 3),
    ];
    assert(template_effects_view(on_death@) =~= seq![
        TemplateEffectView::DealDamage { target: TemplateTarget::All, amount: 3 },
    ]);
    monster(
        18,
        1,
        "Kamikaze",
        "Mort: inflige 3 dégâts à tous les personnages",
        1,
        1,
        Race::COMMON,
        Class::COMMON,
    )
    .on_death(on_death)
    .build()
}

/// Nécromancien: deals four damage to the enemy hero when it dies.
pub open spec fn necromancien_view() -> CardTemplateView {
    monster_view(
        19,
        5,
        "Nécromancien"@,
        "Mort: inflige 4 dégâts au héros ennemi"@,
        4,
        4,
        Race::COMMON,
        Class::COMMON,
        Seq::empty(),
        Seq::empty(),
        Seq::empty(),
        seq![
            TemplateEffectView::DealDamage { target: TemplateTarget::EnnemyPlayer, amount: 4 },
        ],
        None,
    )
}

/// Nécromancien: deals four damage to the enemy hero when it dies.
pub fn necromancien() -> (t: CardTemplate)
    ensures
        t@ == necromancien_view(),
{
    let on_death = vec![
        deal_damage(TemplateTarget::EnnemyPlayer, 4),
    ];
    assert(template_effects_view(on_death@) =~= seq![
        TemplateEffectView::DealDamage { target: TemplateTarget::EnnemyPlayer, amount: 4 },
    ]);
    monster(
        19,
        5,
        "Nécromancien",
        "Mort: inflige 4 dégâts au héros ennemi",
        4,
        4,
        Race::COMMON,
        Class::COMMON,
    )
    .on_death(on_death)
    .build()
}

/// Sorcière: deals one damage to the enemy hero when it attacks.
pub open spec fn sorciere_view() -> CardTemplateView {
    monster_view(
        20,
        3,
        "Sorcière"@,
        "Attaque: inflige 1 dégât au héros ennemi"@,
        2,
        3,
        Race::COMMON,
        Class::COMMON,
        Seq::empty(),
        Seq::empty(),
        seq![
            TemplateEffectView::DealDamage { target: TemplateTarget::EnnemyPlayer, amount: 1 },
        ],
        Seq::empty(),
        None,
    )
}

/// Sorcière: deals one damage to the enemy hero when it attacks.
pub fn sorciere() -> (t: CardTemplate)
    ensures
        t@ == sorciere_view(),
{
    let on_attack = vec![
        deal_damage(TemplateTarget::EnnemyPlayer, 1),
    ];
    assert(template_effects_view(on_attack@) =~= seq![
        TemplateEffectView::DealDamage { target: TemplateTarget::EnnemyPlayer, amount: 1 },
    ]);
    monster(
        20,
        3,
        "Sorcière",
        "Attaque: inflige 1 dégât au héros ennemi",
        2,
        3,
        Race::COMMON,
        Class::COMMON,
    )
    .on_attack(on_attack)
    .build()
}

/// Vampire: heals the hero of its owner by two when it attacks.
pub open spec fn vampire_view() -> CardTemplateView {
    monster_view(
        21,
        4,
        "Vampire"@,
        "Attaque: rend 2 PV au héros allié"@,
        3,
        3,
        Race::COMMON,
        Class::COMMON,
        Seq::empty(),
        Seq::empty(),
        seq![TemplateEffectView::Heal { target: TemplateTarget::Player, amount: 2 }],
        Seq::empty(),
        None,
    )
}

/// Vampire: heals the hero of its owner by two when it attacks.
pub fn vampire() -> (t: CardTemplate)
    ensures
        t@ == vampire_view(),
{
    let on_attack = vec![
        heal(TemplateTarget::Player, 2),
    ];
    assert(template_effects_view(on_attack@) =~= seq![
        TemplateEffectView::Heal { target: TemplateTarget::Player, amount: 2 },
    ]);
    monster(
        21,
        4,
        "Vampire",
        "Attaque: rend 2 PV au héros allié",
        3,
        3,
        Race::COMMON,
        Class::COMMON,
    )
    .on_attack(on_attack)
    .build()
}

/// Paladin: heals its allies by four when it is played.
pub open spec fn paladin_view() -> CardTemplateView {
    monster_view(
        22,
        6,
        "Paladin"@,
        "Apparition: rend 4 PV à tous les alliés. Provocation"@,
        4,
        6,
        Race::COMMON,
        Class::COMMON,
        Seq::empty(),
        seq![TemplateEffectView::Heal { target: TemplateTarget::Allies, amount: 4 }],
        Seq::empty(),
        Seq::empty(),
        None,
    )
}

/// Paladin: heals its allies by four when it is played.
pub fn paladin() -> (t: CardTemplate)
    ensures
        t@ == paladin_view(),
{
    let on_play = vec![
        heal(TemplateTarget::Allies, 4),
    ];
    assert(template_effects_view(on_play@) =~= seq![
        TemplateEffectView::Heal { target: TemplateTarget::Allies, amount: 4 },
    ]);
    monster(
        22,
        6,
        "Paladin",
        "Apparition: rend 4 PV à tous les alliés. Provocation",
        4,
        6,
        Race::COMMON,
        Class::COMMON,
    )
    .on_play(on_play)
    .build()
}

/// Booster Test: gives its allies +1/+1 when it is played.
pub open spec fn booster_test_view() -> CardTemplateView {
    monster_view(
        2,
        1,
        "Booster Test"@,
        "On play : boost the cards on the field +1/+1"@,
        1,
        1,
        Race::COMMON,
        Class::COMMON,
        Seq::empty(),
        seq![
            TemplateEffectView::Boost { target: TemplateTarget::Allies, attack: 1, hp: 1 },
        ],
        Seq::empty(),
        Seq::empty(),
        None,
    )
}

/// Booster Test: gives its allies +1/+1 when it is played.
pub fn booster_test() -> (t: CardTemplate)
    ensures
        t@ == booster_test_view(),
{
    let on_play = vec![
        boost(TemplateTarget::Allies, 1, 1),
    ];
    assert(template_effects_view(on_play@) =~= seq![
        TemplateEffectView::Boost { target: TemplateTarget::Allies, attack: 1, hp: 1 },
    ]);
    monster(
        2,
        1,
        "Booster Test",
        "On play : boost the cards on the field +1/+1",
        1,
        1,
        Race::COMMON,
        Class::COMMON,
    )
    .on_play(on_play)
    .build()
}

/// Healer Test: heals the monsters of its owner by five.
pub open spec fn healer_test_view() -> CardTemplateView {
    spell_view(
        3,
        1,
        "Healer Test"@,
        "Heal all your cards 5 hp"@,
        Race::COMMON,
        Class::COMMON,
        seq![TemplateEffectView::Heal { target: TemplateTarget::Allies, amount: 5 }],
        None,
    )
}

/// Healer Test: heals the monsters of its owner by five.
pub fn healer_test() -> (t: CardTemplate)
    ensures
        t@ == healer_test_view(),
{
    let effect = vec![
        heal(TemplateTarget::Allies, 5),
    ];
    assert(template_effects_view(effect@) =~= seq![
        TemplateEffectView::Heal { target: TemplateTarget::Allies, amount: 5 },
    ]);
    spell(
        3,
        1,
        "Healer Test",
        "Heal all your cards 5 hp",
        Race::COMMON,
        Class::COMMON,
    )
    .effect(effect)
    .build()
}

} // verus!
