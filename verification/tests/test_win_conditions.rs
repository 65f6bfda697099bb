#![allow(dead_code, unused_imports, unused_variables, unused_mut)]
// FUNCTIONAL RULES: Win Conditions
//
// 1. When a player reaches 0 HP from damage, Effect::Win is triggered for the opponent
// 2. Effect::Win sets the winner_id in the game state
// 3. Action::Win is sent to the frontend

use back::collection::types::{
    CardTemplate, CardTypeTemplate, MonsterTemplate, PlayTarget, TargetMatcher,
};
use back::collection::{Archetype, Class};
use back::game::action::Action;
use back::game::card::{CardInstance, CardTypeInstance, Keyword, MonsterInstance, SpellInstance};
use back::game::effects::{Effect, PlayerTarget, Target};
use back::game::player::PlayerInstance;
use back::game::types::Location;
use back::game::view::PublicGameState;
use back::game::Game;
use back::Race;
use std::collections::VecDeque;

fn create_test_game() -> Game {
    let player_id_a = 0;
    let player_id_b = 1;
    Game {
        game_id: 7,
        player_id_a,
        player_id_b,
        entities: Vec::new(),
        effect_queue: VecDeque::new(),
        players: vec![
            PlayerInstance::new(player_id_a, 1, Archetype::Race(Race::COMMON)),
            PlayerInstance::new(player_id_b, 0, Archetype::Race(Race::COMMON)),
        ],
        turn: 1,
        current_player: player_id_a,
        winner_id: None,
        vs_ia: true,
    }
}

fn card(game: &Game, id: usize) -> &CardInstance {
    game.get_entity(id).unwrap()
}

fn card_mut(game: &mut Game, id: usize) -> &mut CardInstance {
    game.get_mut_entity(id).unwrap()
}

fn player(game: &Game, id: usize) -> &PlayerInstance {
    game.get_player(id).unwrap()
}

fn player_mut(game: &mut Game, id: usize) -> &mut PlayerInstance {
    game.get_mut_player(id).unwrap()
}

fn test_card(id: usize, name: &str, owner: usize, location: Location, card_type: CardTypeInstance) -> CardInstance {
    CardInstance {
        id,
        name: name.to_string(),
        description: "Test".to_string(),
        template_id: 9998,
        race: Race::COMMON,
        class: Class::COMMON,
        cost: 0,
        play_target: None,
        owner,
        location,
        card_type,
    }
}

fn test_monster(attack: usize, hp: usize, max_hp: usize, asleep: bool) -> MonsterInstance {
    MonsterInstance {
        attack,
        hp,
        max_hp,
        asleep,
        attack_count: 0,
        keywords: vec![],
        on_play: vec![],
        on_attack: vec![],
        on_death: vec![],
    }
}

fn create_test_spell(game: &mut Game, owner: usize, effects: Vec<Effect>) -> usize {
    let spell_id = game.entities.len() + 2;
    let effects = effects
        .into_iter()
        .map(|effect| update_effect_initiator(effect, spell_id))
        .collect();
    let mut spell = test_card(
        spell_id,
        "Test Spell",
        owner,
        Location::Hand,
        CardTypeInstance::Spell(SpellInstance { effect: effects }),
    );
    spell.description = "Test spell".to_string();
    spell.template_id = 9999;
    game.entities.push(spell);
    spell_id
}

fn update_effect_initiator(effect: Effect, initiator_id: usize) -> Effect {
    match effect {
        Effect::Heal { target, amount, .. } => Effect::Heal { initiator: initiator_id, target, amount },
        Effect::DealDamage { target, amount, .. } => {
            Effect::DealDamage { initiator: initiator_id, target, amount }
        }
        Effect::Boost { target, attack, hp, .. } => {
            Effect::Boost { initiator: initiator_id, target, attack, hp }
        }
        Effect::Destroy { target, .. } => Effect::Destroy { initiator: initiator_id, target },
        Effect::MakeDraw { player, amount, .. } => {
            Effect::MakeDraw { initiator: initiator_id, player, amount }
        }
        Effect::IncreaseMaxMana { player, amount, .. } => {
            Effect::IncreaseMaxMana { initiator: initiator_id, player, amount }
        }
        Effect::RefreshMana { player, amount, .. } => {
            Effect::RefreshMana { initiator: initiator_id, player, amount }
        }
        Effect::Attack { target, .. } => Effect::Attack { initiator: initiator_id, target },
        Effect::AutoDraw { player, amount } => Effect::AutoDraw { player, amount },
        Effect::Win(player) => Effect::Win(player),
        Effect::Summon { side, target, .. } => Effect::Summon { initiator: initiator_id, side, target },
        Effect::SummonFromHand { entity_id, position } => {
            Effect::SummonFromHand { entity_id, position }
        }
    }
}

fn create_test_monster(game: &mut Game, owner: usize, position: usize, hp: usize, max_hp: usize) -> usize {
    let monster_id = game.entities.len() + 2;
    let monster = test_card(
        monster_id,
        "Test Monster",
        owner,
        Location::Field(position),
        CardTypeInstance::Monster(test_monster(2, hp, max_hp, false)),
    );
    game.entities.push(monster);
    monster_id
}

fn create_test_monster_in_hand(
    game: &mut Game,
    owner: usize,
    attack: usize,
    hp: usize,
    keywords: Vec<Keyword>,
    on_play: Vec<Effect>,
) -> usize {
    let monster_id = game.entities.len() + 2;
    let mut state = test_monster(attack, hp, hp, true);
    state.keywords = keywords;
    state.on_play = on_play;
    let mut monster = test_card(
        monster_id,
        "Test Monster in Hand",
        owner,
        Location::Hand,
        CardTypeInstance::Monster(state),
    );
    monster.template_id = 9997;
    game.entities.push(monster);
    monster_id
}

fn create_test_monster_with_on_death(
    game: &mut Game,
    owner: usize,
    position: usize,
    hp: usize,
    max_hp: usize,
    on_death: Vec<Effect>,
) -> usize {
    let monster_id = game.entities.len() + 2;
    let mut state = test_monster(2, hp, max_hp, false);
    state.on_death = on_death
        .into_iter()
        .map(|effect| update_effect_initiator(effect, monster_id))
        .collect();
    let mut monster = test_card(
        monster_id,
        "Test Monster with On Death",
        owner,
        Location::Field(position),
        CardTypeInstance::Monster(state),
    );
    monster.template_id = 9996;
    game.entities.push(monster);
    monster_id
}

fn create_test_monster_with_attack(
    game: &mut Game,
    owner: usize,
    position: usize,
    attack: usize,
    hp: usize,
    max_hp: usize,
) -> usize {
    let monster_id = game.entities.len() + 2;
    let monster = test_card(
        monster_id,
        "Test Monster",
        owner,
        Location::Field(position),
        CardTypeInstance::Monster(test_monster(attack, hp, max_hp, false)),
    );
    game.entities.push(monster);
    monster_id
}

fn create_test_monster_with_on_attack(
    game: &mut Game,
    owner: usize,
    position: usize,
    attack: usize,
    hp: usize,
    on_attack: Vec<Effect>,
) -> usize {
    let monster_id = game.entities.len() + 2;
    let mut state = test_monster(attack, hp, hp, false);
    state.on_attack = on_attack
        .into_iter()
        .map(|effect| update_effect_initiator(effect, monster_id))
        .collect();
    let mut monster = test_card(
        monster_id,
        "Test Monster with On Attack",
        owner,
        Location::Field(position),
        CardTypeInstance::Monster(state),
    );
    monster.template_id = 9997;
    game.entities.push(monster);
    monster_id
}

fn add_card_to_deck(game: &mut Game, owner: usize) -> usize {
    let card_id = game.entities.len() + 2;
    let mut card = test_card(
        card_id,
        "Test Card in Deck",
        owner,
        Location::Deck,
        CardTypeInstance::Monster(test_monster(1, 1, 1, true)),
    );
    card.template_id = 9995;
    game.entities.push(card);
    card_id
}

fn add_card_to_hand(game: &mut Game, owner: usize) -> usize {
    let card_id = game.entities.len() + 2;
    let mut card = test_card(
        card_id,
        "Test Card in Hand",
        owner,
        Location::Hand,
        CardTypeInstance::Monster(test_monster(1, 1, 1, true)),
    );
    card.template_id = 9994;
    game.entities.push(card);
    card_id
}

#[test]
fn test_player_at_zero_hp_triggers_win_for_opponent() {
    // a) Initialize
    let mut game = create_test_game();
    let player_a = game.player_id_a;
    let player_b = game.player_id_b;

    // b) Modify state: set player B to 1 HP
    player_mut(&mut game, player_b).hp = 1;

    // Create a spell that deals 1 damage to enemy player
    let damage_spell = create_test_spell(
        &mut game,
        player_a,
        vec![Effect::DealDamage {
            initiator: 0,
            target: Target::EnnemyPlayer,
            amount: 1,
        }],
    );

    // c) Test as user would: play the spell to kill opponent
    game.play_spell(player_a, damage_spell, None).unwrap();
    game.compute_commands().unwrap();

    // d) Assert player B is at 0 HP and player A won
    assert_eq!(player(&game, player_b).hp, 0);
    assert_eq!(game.winner_id, Some(player_a));
}

#[test]
fn test_win_effect_sets_winner_id() {
    // a) Initialize
    let mut game = create_test_game();
    let player_a = game.player_id_a;
    let player_b = game.player_id_b;

    // Verify no winner initially
    assert_eq!(game.winner_id, None);

    // b) Modify state: directly queue a Win effect
    game.effect_queue.push_back(Effect::Win(player_a));

    // c) Test: execute the effect
    game.compute_commands().unwrap();

    // d) Assert winner_id is set
    assert_eq!(game.winner_id, Some(player_a));
}

#[test]
fn test_win_sends_action_to_frontend() {
    // a) Initialize
    let mut game = create_test_game();
    let player_a = game.player_id_a;

    // b) Modify state: queue Win effect
    game.effect_queue.push_back(Effect::Win(player_a));

    // c) Test: execute and get actions
    let actions = game.compute_commands().unwrap();

    // d) Assert Action::Win is in the actions
    assert!(
        actions
            .iter()
            .any(|a| matches!(a, Action::Win(winner_id) if *winner_id == player_a))
    );
}

#[test]
fn test_dealing_exact_lethal_damage_triggers_win() {
    // a) Initialize
    let mut game = create_test_game();
    let player_a = game.player_id_a;
    let player_b = game.player_id_b;

    // b) Modify state: player B has 5 HP, create spell that deals exactly 5
    player_mut(&mut game, player_b).hp = 5;

    let lethal_spell = create_test_spell(
        &mut game,
        player_a,
        vec![Effect::DealDamage {
            initiator: 0,
            target: Target::EnnemyPlayer,
            amount: 5,
        }],
    );

    // c) Test: deal exact lethal damage
    game.play_spell(player_a, lethal_spell, None).unwrap();
    game.compute_commands().unwrap();

    // d) Assert player B is dead and player A won
    assert_eq!(player(&game, player_b).hp, 0);
    assert_eq!(game.winner_id, Some(player_a));
}

#[test]
fn test_overkill_damage_also_triggers_win() {
    // a) Initialize
    let mut game = create_test_game();
    let player_a = game.player_id_a;
    let player_b = game.player_id_b;

    // b) Modify state: player B has 3 HP, create spell that deals 10 (overkill)
    player_mut(&mut game, player_b).hp = 3;

    let overkill_spell = create_test_spell(
        &mut game,
        player_a,
        vec![Effect::DealDamage {
            initiator: 0,
            target: Target::EnnemyPlayer,
            amount: 10,
        }],
    );

    // c) Test: deal overkill damage
    game.play_spell(player_a, overkill_spell, None).unwrap();
    game.compute_commands().unwrap();

    // d) Assert player B is at 0 HP (saturating_sub prevents negative) and player A won
    assert_eq!(player(&game, player_b).hp, 0);
    assert_eq!(game.winner_id, Some(player_a));
}

#[test]
fn test_non_lethal_damage_does_not_trigger_win() {
    // a) Initialize
    let mut game = create_test_game();
    let player_a = game.player_id_a;
    let player_b = game.player_id_b;

    // b) Modify state: player B has 10 HP, create spell that deals 5 (non-lethal)
    player_mut(&mut game, player_b).hp = 10;

    let damage_spell = create_test_spell(
        &mut game,
        player_a,
        vec![Effect::DealDamage {
            initiator: 0,
            target: Target::EnnemyPlayer,
            amount: 5,
        }],
    );

    // c) Test: deal non-lethal damage
    game.play_spell(player_a, damage_spell, None).unwrap();
    game.compute_commands().unwrap();

    // d) Assert player B is still alive and no winner yet
    assert_eq!(player(&game, player_b).hp, 5);
    assert_eq!(game.winner_id, None);
}
