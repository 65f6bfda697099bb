#![allow(dead_code, unused_imports, unused_variables, unused_mut)]
// FUNCTIONAL RULES: RefreshMana Effect
//
// 1. Restores available mana up to player's base_mana maximum
// 2. Cannot exceed base_mana (excess is wasted)
// 3. Can target self or opponent player
// 4. Multiple refreshes in one turn stack (still capped at base_mana)

use back::collection::types::{
    CardTemplate, CardTypeTemplate, MonsterTemplate, PlayTarget, TargetMatcher,
};
use back::collection::{Archetype, Class};
use back::game::action::Action;
use back::game::card::{CardInstance, CardTypeInstance, Keyword, MonsterInstance, SpellInstance};
use back::game::effects::{Effect, PlayerTarget, Target};
use back::game::player::PlayerInstance;
use back::game::types::Location;
use back::game::view::PublicGameState;
use back::game::Game;
use back::Race;
use std::collections::VecDeque;

fn create_test_game() -> Game {
    let player_id_a = 0;
    let player_id_b = 1;
    Game {
        game_id: 7,
        player_id_a,
        player_id_b,
        entities: Vec::new(),
        effect_queue: VecDeque::new(),
        players: vec![
            PlayerInstance::new(player_id_a, 1, Archetype::Race(Race::COMMON)),
            PlayerInstance::new(player_id_b, 0, Archetype::Race(Race::COMMON)),
        ],
        turn: 1,
        current_player: player_id_a,
        winner_id: None,
        vs_ia: true,
    }
}

fn card(game: &Game, id: usize) -> &CardInstance {
    game.get_entity(id).unwrap()
}

fn card_mut(game: &mut Game, id: usize) -> &mut CardInstance {
    game.get_mut_entity(id).unwrap()
}

fn player(game: &Game, id: usize) -> &PlayerInstance {
    game.get_player(id).unwrap()
}

fn player_mut(game: &mut Game, id: usize) -> &mut PlayerInstance {
    game.get_mut_player(id).unwrap()
}

fn test_card(id: usize, name: &str, owner: usize, location: Location, card_type: CardTypeInstance) -> CardInstance {
    CardInstance {
        id,
        name: name.to_string(),
        description: "Test".to_string(),
        template_id: 9998,
        race: Race::COMMON,
        class: Class::COMMON,
        cost: 0,
        play_target: None,
        owner,
        location,
        card_type,
    }
}

fn test_monster(attack: usize, hp: usize, max_hp: usize, asleep: bool) -> MonsterInstance {
    MonsterInstance {
        attack,
        hp,
        max_hp,
        asleep,
        attack_count: 0,
        keywords: vec![],
        on_play: vec![],
        on_attack: vec![],
        on_death: vec![],
    }
}

fn create_test_spell(game: &mut Game, owner: usize, effects: Vec<Effect>) -> usize {
    let spell_id = game.entities.len() + 2;
    let effects = effects
        .into_iter()
        .map(|effect| update_effect_initiator(effect, spell_id))
        .collect();
    let mut spell = test_card(
        spell_id,
        "Test Spell",
        owner,
        Location::Hand,
        CardTypeInstance::Spell(SpellInstance { effect: effects }),
    );
    spell.description = "Test spell".to_string();
    spell.template_id = 9999;
    game.entities.push(spell);
    spell_id
}

fn update_effect_initiator(effect: Effect, initiator_id: usize) -> Effect {
    match effect {
        Effect::Heal { target, amount, .. } => Effect::Heal { initiator: initiator_id, target, amount },
        Effect::DealDamage { target, amount, .. } => {
            Effect::DealDamage { initiator: initiator_id, target, amount }
        }
        Effect::Boost { target, attack, hp, .. } => {
            Effect::Boost { initiator: initiator_id, target, attack, hp }
        }
        Effect::Destroy { target, .. } => Effect::Destroy { initiator: initiator_id, target },
        Effect::MakeDraw { player, amount, .. } => {
            Effect::MakeDraw { initiator: initiator_id, player, amount }
        }
        Effect::IncreaseMaxMana { player, amount, .. } => {
            Effect::IncreaseMaxMana { initiator: initiator_id, player, amount }
        }
        Effect::RefreshMana { player, amount, .. } => {
            Effect::RefreshMana { initiator: initiator_id, player, amount }
        }
        Effect::Attack { target, .. } => Effect::Attack { initiator: initiator_id, target },
        Effect::AutoDraw { player, amount } => Effect::AutoDraw { player, amount },
        Effect::Win(player) => Effect::Win(player),
        Effect::Summon { side, target, .. } => Effect::Summon { initiator: initiator_id, side, target },
        Effect::SummonFromHand { entity_id, position } => {
            Effect::SummonFromHand { entity_id, position }
        }
    }
}

fn create_test_monster(game: &mut Game, owner: usize, position: usize, hp: usize, max_hp: usize) -> usize {
    let monster_id = game.entities.len() + 2;
    let monster = test_card(
        monster_id,
        "Test Monster",
        owner,
        Location::Field(position),
        CardTypeInstance::Monster(test_monster(2, hp, max_hp, false)),
    );
    game.entities.push(monster);
    monster_id
}

fn create_test_monster_in_hand(
    game: &mut Game,
    owner: usize,
    attack: usize,
    hp: usize,
    keywords: Vec<Keyword>,
    on_play: Vec<Effect>,
) -> usize {
    let monster_id = game.entities.len() + 2;
    let mut state = test_monster(attack, hp, hp, true);
    state.keywords = keywords;
    state.on_play = on_play;
    let mut monster = test_card(
        monster_id,
        "Test Monster in Hand",
        owner,
        Location::Hand,
        CardTypeInstance::Monster(state),
    );
    monster.template_id = 9997;
    game.entities.push(monster);
    monster_id
}

fn create_test_monster_with_on_death(
    game: &mut Game,
    owner: usize,
    position: usize,
    hp: usize,
    max_hp: usize,
    on_death: Vec<Effect>,
) -> usize {
    let monster_id = game.entities.len() + 2;
    let mut state = test_monster(2, hp, max_hp, false);
    state.on_death = on_death
        .into_iter()
        .map(|effect| update_effect_initiator(effect, monster_id))
        .collect();
    let mut monster = test_card(
        monster_id,
        "Test Monster with On Death",
        owner,
        Location::Field(position),
        CardTypeInstance::Monster(state),
    );
    monster.template_id = 9996;
    game.entities.push(monster);
    monster_id
}

fn create_test_monster_with_attack(
    game: &mut Game,
    owner: usize,
    position: usize,
    attack: usize,
    hp: usize,
    max_hp: usize,
) -> usize {
    let monster_id = game.entities.len() + 2;
    let monster = test_card(
        monster_id,
        "Test Monster",
        owner,
        Location::Field(position),
        CardTypeInstance::Monster(test_monster(attack, hp, max_hp, false)),
    );
    game.entities.push(monster);
    monster_id
}

fn create_test_monster_with_on_attack(
    game: &mut Game,
    owner: usize,
    position: usize,
    attack: usize,
    hp: usize,
    on_attack: Vec<Effect>,
) -> usize {
    let monster_id = game.entities.len() + 2;
    let mut state = test_monster(attack, hp, hp, false);
    state.on_attack = on_attack
        .into_iter()
        .map(|effect| update_effect_initiator(effect, monster_id))
        .collect();
    let mut monster = test_card(
        monster_id,
        "Test Monster with On Attack",
        owner,
        Location::Field(position),
        CardTypeInstance::Monster(state),
    );
    monster.template_id = 9997;
    game.entities.push(monster);
    monster_id
}

fn add_card_to_deck(game: &mut Game, owner: usize) -> usize {
    let card_id = game.entities.len() + 2;
    let mut card = test_card(
        card_id,
        "Test Card in Deck",
        owner,
        Location::Deck,
        CardTypeInstance::Monster(test_monster(1, 1, 1, true)),
    );
    card.template_id = 9995;
    game.entities.push(card);
    card_id
}

fn add_card_to_hand(game: &mut Game, owner: usize) -> usize {
    let card_id = game.entities.len() + 2;
    let mut card = test_card(
        card_id,
        "Test Card in Hand",
        owner,
        Location::Hand,
        CardTypeInstance::Monster(test_monster(1, 1, 1, true)),
    );
    card.template_id = 9994;
    game.entities.push(card);
    card_id
}

#[test]
fn test_refresh_mana_restores_available_mana() {
    let mut game = create_test_game();
    let player_a = game.player_id_a;

    player_mut(&mut game, player_a).base_mana = 10;
    player_mut(&mut game, player_a).mana = 3;

    let refresh_spell = create_test_spell(
        &mut game,
        player_a,
        vec![Effect::RefreshMana {
            initiator: 0,
            player: PlayerTarget::Player,
            amount: 5,
        }],
    );
    game.play_spell(player_a, refresh_spell, None).unwrap();
    game.compute_commands().unwrap();

    assert_eq!(player(&game, player_a).mana, 8);
    assert_eq!(player(&game, player_a).base_mana, 10);
}

#[test]
fn test_refresh_mana_cannot_exceed_base_mana() {
    let mut game = create_test_game();
    let player_a = game.player_id_a;

    player_mut(&mut game, player_a).base_mana = 10;
    player_mut(&mut game, player_a).mana = 7;

    let refresh_spell = create_test_spell(
        &mut game,
        player_a,
        vec![Effect::RefreshMana {
            initiator: 0,
            player: PlayerTarget::Player,
            amount: 10,
        }],
    );
    game.play_spell(player_a, refresh_spell, None).unwrap();
    game.compute_commands().unwrap();

    assert_eq!(player(&game, player_a).mana, 10);
    assert_eq!(player(&game, player_a).base_mana, 10);
}

#[test]
fn test_refresh_mana_can_target_opponent() {
    let mut game = create_test_game();
    let player_a = game.player_id_a;
    let player_b = game.player_id_b;

    player_mut(&mut game, player_a).mana = 5;
    player_mut(&mut game, player_b).base_mana = 8;
    player_mut(&mut game, player_b).mana = 2;

    let refresh_spell = create_test_spell(
        &mut game,
        player_a,
        vec![Effect::RefreshMana {
            initiator: 0,
            player: PlayerTarget::EnnemyPlayer,
            amount: 4,
        }],
    );
    game.play_spell(player_a, refresh_spell, None).unwrap();
    game.compute_commands().unwrap();

    assert_eq!(player(&game, player_b).mana, 6);
    assert_eq!(player(&game, player_a).mana, 5);
}

#[test]
fn test_multiple_refreshes_stack_capped_at_base_mana() {
    let mut game = create_test_game();
    let player_a = game.player_id_a;

    player_mut(&mut game, player_a).base_mana = 10;
    player_mut(&mut game, player_a).mana = 2;

    let multi_refresh_spell = create_test_spell(
        &mut game,
        player_a,
        vec![
            Effect::RefreshMana {
                initiator: 0,
                player: PlayerTarget::Player,
                amount: 4,
            },
            Effect::RefreshMana {
                initiator: 0,
                player: PlayerTarget::Player,
                amount: 3,
            },
            Effect::RefreshMana {
                initiator: 0,
                player: PlayerTarget::Player,
                amount: 5,
            },
        ],
    );
    game.play_spell(player_a, multi_refresh_spell, None).unwrap();
    game.compute_commands().unwrap();

    assert_eq!(player(&game, player_a).mana, 10);
    assert_eq!(player(&game, player_a).base_mana, 10);
}

#[test]
fn test_refresh_mana_from_empty_to_full() {
    let mut game = create_test_game();
    let player_a = game.player_id_a;

    player_mut(&mut game, player_a).base_mana = 7;
    player_mut(&mut game, player_a).mana = 0;

    let refresh_spell = create_test_spell(
        &mut game,
        player_a,
        vec![Effect::RefreshMana {
            initiator: 0,
            player: PlayerTarget::Player,
            amount: 7,
        }],
    );
    game.play_spell(player_a, refresh_spell, None).unwrap();
    game.compute_commands().unwrap();

    assert_eq!(player(&game, player_a).mana, 7);
    assert_eq!(player(&game, player_a).base_mana, 7);
}
