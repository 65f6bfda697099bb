#![allow(dead_code, unused_imports, unused_variables, unused_mut)]
// FUNCTIONAL RULES: End Turn
//
// 1. The active player (current_player) switches to the opponent
// 2. The new active player automatically draws 1 card
// 3. The new player's base_mana increases by 1 (capped at 10)
// 4. The available mana is refreshed to base_mana
// 5. Movement points are reset to 3
// 6. Attack counters (attack_count) for all monsters of the new player are reset to 0
// 7. All monsters of the new player wake up (asleep = false)

use back::collection::types::{
    CardTemplate, CardTypeTemplate, MonsterTemplate, PlayTarget, TargetMatcher,
};
use back::collection::{Archetype, Class};
use back::game::action::Action;
use back::game::card::{CardInstance, CardTypeInstance, Keyword, MonsterInstance, SpellInstance};
use back::game::effects::{Effect, PlayerTarget, Target};
use back::game::player::PlayerInstance;
use back::game::types::Location;
use back::game::view::PublicGameState;
use back::game::Game;
use back::Race;
use std::collections::VecDeque;

fn create_test_game() -> Game {
    let player_id_a = 0;
    let player_id_b = 1;
    Game {
        game_id: 7,
        player_id_a,
        player_id_b,
        entities: Vec::new(),
        effect_queue: VecDeque::new(),
        players: vec![
            PlayerInstance::new(player_id_a, 1, Archetype::Race(Race::COMMON)),
            PlayerInstance::new(player_id_b, 0, Archetype::Race(Race::COMMON)),
        ],
        turn: 1,
        current_player: player_id_a,
        winner_id: None,
        vs_ia: true,
    }
}

fn card(game: &Game, id: usize) -> &CardInstance {
    game.get_entity(id).unwrap()
}

fn card_mut(game: &mut Game, id: usize) -> &mut CardInstance {
    game.get_mut_entity(id).unwrap()
}

fn player(game: &Game, id: usize) -> &PlayerInstance {
    game.get_player(id).unwrap()
}

fn player_mut(game: &mut Game, id: usize) -> &mut PlayerInstance {
    game.get_mut_player(id).unwrap()
}

fn test_card(id: usize, name: &str, owner: usize, location: Location, card_type: CardTypeInstance) -> CardInstance {
    CardInstance {
        id,
        name: name.to_string(),
        description: "Test".to_string(),
        template_id: 9998,
        race: Race::COMMON,
        class: Class::COMMON,
        cost: 0,
        play_target: None,
        owner,
        location,
        card_type,
    }
}

fn test_monster(attack: usize, hp: usize, max_hp: usize, asleep: bool) -> MonsterInstance {
    MonsterInstance {
        attack,
        hp,
        max_hp,
        asleep,
        attack_count: 0,
        keywords: vec![],
        on_play: vec![],
        on_attack: vec![],
        on_death: vec![],
    }
}

fn create_test_spell(game: &mut Game, owner: usize, effects: Vec<Effect>) -> usize {
    let spell_id = game.entities.len() + 2;
    let effects = effects
        .into_iter()
        .map(|effect| update_effect_initiator(effect, spell_id))
        .collect();
    let mut spell = test_card(
        spell_id,
        "Test Spell",
        owner,
        Location::Hand,
        CardTypeInstance::Spell(SpellInstance { effect: effects }),
    );
    spell.description = "Test spell".to_string();
    spell.template_id = 9999;
    game.entities.push(spell);
    spell_id
}

fn update_effect_initiator(effect: Effect, initiator_id: usize) -> Effect {
    match effect {
        Effect::Heal { target, amount, .. } => Effect::Heal { initiator: initiator_id, target, amount },
        Effect::DealDamage { target, amount, .. } => {
            Effect::DealDamage { initiator: initiator_id, target, amount }
        }
        Effect::Boost { target, attack, hp, .. } => {
            Effect::Boost { initiator: initiator_id, target, attack, hp }
        }
        Effect::Destroy { target, .. } => Effect::Destroy { initiator: initiator_id, target },
        Effect::MakeDraw { player, amount, .. } => {
            Effect::MakeDraw { initiator: initiator_id, player, amount }
        }
        Effect::IncreaseMaxMana { player, amount, .. } => {
            Effect::IncreaseMaxMana { initiator: initiator_id, player, amount }
        }
        Effect::RefreshMana { player, amount, .. } => {
            Effect::RefreshMana { initiator: initiator_id, player, amount }
        }
        Effect::Attack { target, .. } => Effect::Attack { initiator: initiator_id, target },
        Effect::AutoDraw { player, amount } => Effect::AutoDraw { player, amount },
        Effect::Win(player) => Effect::Win(player),
        Effect::Summon { side, target, .. } => Effect::Summon { initiator: initiator_id, side, target },
        Effect::SummonFromHand { entity_id, position } => {
            Effect::SummonFromHand { entity_id, position }
        }
    }
}

fn create_test_monster(game: &mut Game, owner: usize, position: usize, hp: usize, max_hp: usize) -> usize {
    let monster_id = game.entities.len() + 2;
    let monster = test_card(
        monster_id,
        "Test Monster",
        owner,
        Location::Field(position),
        CardTypeInstance::Monster(test_monster(2, hp, max_hp, false)),
    );
    game.entities.push(monster);
    monster_id
}

fn create_test_monster_in_hand(
    game: &mut Game,
    owner: usize,
    attack: usize,
    hp: usize,
    keywords: Vec<Keyword>,
    on_play: Vec<Effect>,
) -> usize {
    let monster_id = game.entities.len() + 2;
    let mut state = test_monster(attack, hp, hp, true);
    state.keywords = keywords;
    state.on_play = on_play;
    let mut monster = test_card(
        monster_id,
        "Test Monster in Hand",
        owner,
        Location::Hand,
        CardTypeInstance::Monster(state),
    );
    monster.template_id = 9997;
    game.entities.push(monster);
    monster_id
}

fn create_test_monster_with_on_death(
    game: &mut Game,
    owner: usize,
    position: usize,
    hp: usize,
    max_hp: usize,
    on_death: Vec<Effect>,
) -> usize {
    let monster_id = game.entities.len() + 2;
    let mut state = test_monster(2, hp, max_hp, false);
    state.on_death = on_death
        .into_iter()
        .map(|effect| update_effect_initiator(effect, monster_id))
        .collect();
    let mut monster = test_card(
        monster_id,
        "Test Monster with On Death",
        owner,
        Location::Field(position),
        CardTypeInstance::Monster(state),
    );
    monster.template_id = 9996;
    game.entities.push(monster);
    monster_id
}

fn create_test_monster_with_attack(
    game: &mut Game,
    owner: usize,
    position: usize,
    attack: usize,
    hp: usize,
    max_hp: usize,
) -> usize {
    let monster_id = game.entities.len() + 2;
    let monster = test_card(
        monster_id,
        "Test Monster",
        owner,
        Location::Field(position),
        CardTypeInstance::Monster(test_monster(attack, hp, max_hp, false)),
    );
    game.entities.push(monster);
    monster_id
}

fn create_test_monster_with_on_attack(
    game: &mut Game,
    owner: usize,
    position: usize,
    attack: usize,
    hp: usize,
    on_attack: Vec<Effect>,
) -> usize {
    let monster_id = game.entities.len() + 2;
    let mut state = test_monster(attack, hp, hp, false);
    state.on_attack = on_attack
        .into_iter()
        .map(|effect| update_effect_initiator(effect, monster_id))
        .collect();
    let mut monster = test_card(
        monster_id,
        "Test Monster with On Attack",
        owner,
        Location::Field(position),
        CardTypeInstance::Monster(state),
    );
    monster.template_id = 9997;
    game.entities.push(monster);
    monster_id
}

fn add_card_to_deck(game: &mut Game, owner: usize) -> usize {
    let card_id = game.entities.len() + 2;
    let mut card = test_card(
        card_id,
        "Test Card in Deck",
        owner,
        Location::Deck,
        CardTypeInstance::Monster(test_monster(1, 1, 1, true)),
    );
    card.template_id = 9995;
    game.entities.push(card);
    card_id
}

fn add_card_to_hand(game: &mut Game, owner: usize) -> usize {
    let card_id = game.entities.len() + 2;
    let mut card = test_card(
        card_id,
        "Test Card in Hand",
        owner,
        Location::Hand,
        CardTypeInstance::Monster(test_monster(1, 1, 1, true)),
    );
    card.template_id = 9994;
    game.entities.push(card);
    card_id
}

#[test]
fn test_end_turn_switches_active_player() {
    // a) Initialize
    let mut game = create_test_game();
    game.vs_ia = false; // Disable AI to prevent auto-play
    let player_a = game.player_id_a;
    let player_b = game.player_id_b;

    // Verify initial state
    assert_eq!(game.current_player, player_a);

    // b) Modify state: ensure player A has cards to draw (AutoDraw needs a card)
    add_card_to_deck(&mut game, player_b);

    // c) Test as user would: end player A's turn
    game.end_turn(player_a).unwrap();

    // d) Assert the current player is now player B
    assert_eq!(game.current_player, player_b);
}

#[test]
fn test_end_turn_new_player_draws_one_card() {
    // a) Initialize
    let mut game = create_test_game();
    game.vs_ia = false; // Disable AI to prevent auto-play
    let player_a = game.player_id_a;
    let player_b = game.player_id_b;

    // b) Modify state: add a card to player B's deck
    let card_id = add_card_to_deck(&mut game, player_b);

    // Verify card is in deck
    assert_eq!(
        card(&game, card_id).location,
        Location::Deck
    );

    // c) Test: end turn
    game.end_turn(player_a).unwrap();

    // d) Assert the card moved to hand
    assert_eq!(
        card(&game, card_id).location,
        Location::Hand
    );
}

#[test]
fn test_end_turn_increases_base_mana_by_one() {
    // a) Initialize
    let mut game = create_test_game();
    game.vs_ia = false; // Disable AI to prevent auto-play
    let player_a = game.player_id_a;
    let player_b = game.player_id_b;

    // b) Modify state: set player B's base_mana to 3
    player_mut(&mut game, player_b).base_mana = 3;
    add_card_to_deck(&mut game, player_b); // For AutoDraw

    // c) Test: end turn
    game.end_turn(player_a).unwrap();

    // d) Assert base_mana increased to 4
    assert_eq!(player(&game, player_b).base_mana, 4);
}

#[test]
fn test_end_turn_base_mana_capped_at_ten() {
    // a) Initialize
    let mut game = create_test_game();
    game.vs_ia = false; // Disable AI to prevent auto-play
    let player_a = game.player_id_a;
    let player_b = game.player_id_b;

    // b) Modify state: set player B's base_mana to 10 (max)
    player_mut(&mut game, player_b).base_mana = 10;
    add_card_to_deck(&mut game, player_b); // For AutoDraw

    // c) Test: end turn
    game.end_turn(player_a).unwrap();

    // d) Assert base_mana stayed at 10 (not 11)
    assert_eq!(player(&game, player_b).base_mana, 10);
}

#[test]
fn test_end_turn_refreshes_mana_to_base_mana() {
    // a) Initialize
    let mut game = create_test_game();
    game.vs_ia = false; // Disable AI to prevent auto-play
    let player_a = game.player_id_a;
    let player_b = game.player_id_b;

    // b) Modify state: player B has base_mana 5 but only 2 available
    player_mut(&mut game, player_b).base_mana = 5;
    player_mut(&mut game, player_b).mana = 2;
    add_card_to_deck(&mut game, player_b); // For AutoDraw

    // Verify before
    assert_eq!(player(&game, player_b).mana, 2);

    // c) Test: end turn
    game.end_turn(player_a).unwrap();

    // d) Assert mana refreshed to base_mana (which increased to 6)
    assert_eq!(player(&game, player_b).base_mana, 6);
    assert_eq!(player(&game, player_b).mana, 6);
}

#[test]
fn test_end_turn_resets_movement_points_to_three() {
    // a) Initialize
    let mut game = create_test_game();
    game.vs_ia = false; // Disable AI to prevent auto-play
    let player_a = game.player_id_a;
    let player_b = game.player_id_b;

    // b) Modify state: player B has 0 movement points
    player_mut(&mut game, player_b).move_count = 0;
    add_card_to_deck(&mut game, player_b); // For AutoDraw

    // Verify before
    assert_eq!(player(&game, player_b).move_count, 0);

    // c) Test: end turn
    game.end_turn(player_a).unwrap();

    // d) Assert movement points reset to 3
    assert_eq!(player(&game, player_b).move_count, 3);
}

#[test]
fn test_end_turn_resets_monster_attack_counts() {
    // a) Initialize
    let mut game = create_test_game();
    game.vs_ia = false; // Disable AI to prevent auto-play
    let player_a = game.player_id_a;
    let player_b = game.player_id_b;

    // b) Modify state: create monsters for player B with attack_count > 0
    let monster_1 = create_test_monster(&mut game, player_b, 0, 5, 5);
    let monster_2 = create_test_monster(&mut game, player_b, 1, 5, 5);

    // Set attack_count to non-zero
    if let CardTypeInstance::Monster(m) =
        &mut card_mut(&mut game, monster_1).card_type
    {
        m.attack_count = 1;
    }
    if let CardTypeInstance::Monster(m) =
        &mut card_mut(&mut game, monster_2).card_type
    {
        m.attack_count = 2;
    }

    add_card_to_deck(&mut game, player_b); // For AutoDraw

    // c) Test: end turn
    game.end_turn(player_a).unwrap();

    // d) Assert all attack counts are reset to 0
    if let CardTypeInstance::Monster(m) = &card(&game, monster_1).card_type {
        assert_eq!(m.attack_count, 0);
    }
    if let CardTypeInstance::Monster(m) = &card(&game, monster_2).card_type {
        assert_eq!(m.attack_count, 0);
    }
}

#[test]
fn test_end_turn_wakes_up_all_monsters() {
    // a) Initialize
    let mut game = create_test_game();
    game.vs_ia = false; // Disable AI to prevent auto-play
    let player_a = game.player_id_a;
    let player_b = game.player_id_b;

    // b) Modify state: create asleep monsters for player B
    let monster_1 = create_test_monster(&mut game, player_b, 0, 5, 5);
    let monster_2 = create_test_monster(&mut game, player_b, 1, 5, 5);

    // Set monsters as asleep
    if let CardTypeInstance::Monster(m) =
        &mut card_mut(&mut game, monster_1).card_type
    {
        m.asleep = true;
    }
    if let CardTypeInstance::Monster(m) =
        &mut card_mut(&mut game, monster_2).card_type
    {
        m.asleep = true;
    }

    add_card_to_deck(&mut game, player_b); // For AutoDraw

    // c) Test: end turn
    game.end_turn(player_a).unwrap();

    // d) Assert all monsters are now awake (asleep = false)
    if let CardTypeInstance::Monster(m) = &card(&game, monster_1).card_type {
        assert_eq!(m.asleep, false);
    }
    if let CardTypeInstance::Monster(m) = &card(&game, monster_2).card_type {
        assert_eq!(m.asleep, false);
    }
}
