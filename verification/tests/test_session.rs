#![allow(dead_code, unused_imports, unused_variables, unused_mut)]
// What a session decides around a game.

use back::collection::types::{
    CardTemplate, CardTypeTemplate, MonsterTemplate, PlayTarget, TargetMatcher,
};
use back::collection::{Archetype, Class};
use back::game::action::Action;
use back::game::card::{CardInstance, CardTypeInstance, Keyword, MonsterInstance, SpellInstance};
use back::game::effects::{Effect, PlayerTarget, Target};
use back::game::player::PlayerInstance;
use back::game::types::Location;
use back::game::view::PublicGameState;
use back::game::Game;
use back::Race;
use std::collections::VecDeque;

fn create_test_game() -> Game {
    let player_id_a = 0;
    let player_id_b = 1;
    Game {
        game_id: 7,
        player_id_a,
        player_id_b,
        entities: Vec::new(),
        effect_queue: VecDeque::new(),
        players: vec![
            PlayerInstance::new(player_id_a, 1, Archetype::Race(Race::COMMON)),
            PlayerInstance::new(player_id_b, 0, Archetype::Race(Race::COMMON)),
        ],
        turn: 1,
        current_player: player_id_a,
        winner_id: None,
        vs_ia: true,
    }
}

fn card(game: &Game, id: usize) -> &CardInstance {
    game.get_entity(id).unwrap()
}

fn card_mut(game: &mut Game, id: usize) -> &mut CardInstance {
    game.get_mut_entity(id).unwrap()
}

fn player(game: &Game, id: usize) -> &PlayerInstance {
    game.get_player(id).unwrap()
}

fn player_mut(game: &mut Game, id: usize) -> &mut PlayerInstance {
    game.get_mut_player(id).unwrap()
}

fn test_card(id: usize, name: &str, owner: usize, location: Location, card_type: CardTypeInstance) -> CardInstance {
    CardInstance {
        id,
        name: name.to_string(),
        description: "Test".to_string(),
        template_id: 9998,
        race: Race::COMMON,
        class: Class::COMMON,
        cost: 0,
        play_target: None,
        owner,
        location,
        card_type,
    }
}

fn test_monster(attack: usize, hp: usize, max_hp: usize, asleep: bool) -> MonsterInstance {
    MonsterInstance {
        attack,
        hp,
        max_hp,
        asleep,
        attack_count: 0,
        keywords: vec![],
        on_play: vec![],
        on_attack: vec![],
        on_death: vec![],
    }
}

fn create_test_spell(game: &mut Game, owner: usize, effects: Vec<Effect>) -> usize {
    let spell_id = game.entities.len() + 2;
    let effects = effects
        .into_iter()
        .map(|effect| update_effect_initiator(effect, spell_id))
        .collect();
    let mut spell = test_card(
        spell_id,
        "Test Spell",
        owner,
        Location::Hand,
        CardTypeInstance::Spell(SpellInstance { effect: effects }),
    );
    spell.description = "Test spell".to_string();
    spell.template_id = 9999;
    game.entities.push(spell);
    spell_id
}

fn update_effect_initiator(effect: Effect, initiator_id: usize) -> Effect {
    match effect {
        Effect::Heal { target, amount, .. } => Effect::Heal { initiator: initiator_id, target, amount },
        Effect::DealDamage { target, amount, .. } => {
            Effect::DealDamage { initiator: initiator_id, target, amount }
        }
        Effect::Boost { target, attack, hp, .. } => {
            Effect::Boost { initiator: initiator_id, target, attack, hp }
        }
        Effect::Destroy { target, .. } => Effect::Destroy { initiator: initiator_id, target },
        Effect::MakeDraw { player, amount, .. } => {
            Effect::MakeDraw { initiator: initiator_id, player, amount }
        }
        Effect::IncreaseMaxMana { player, amount, .. } => {
            Effect::IncreaseMaxMana { initiator: initiator_id, player, amount }
        }
        Effect::RefreshMana { player, amount, .. } => {
            Effect::RefreshMana { initiator: initiator_id, player, amount }
        }
        Effect::Attack { target, .. } => Effect::Attack { initiator: initiator_id, target },
        Effect::AutoDraw { player, amount } => Effect::AutoDraw { player, amount },
        Effect::Win(player) => Effect::Win(player),
        Effect::Summon { side, target, .. } => Effect::Summon { initiator: initiator_id, side, target },
        Effect::SummonFromHand { entity_id, position } => {
            Effect::SummonFromHand { entity_id, position }
        }
    }
}

fn create_test_monster(game: &mut Game, owner: usize, position: usize, hp: usize, max_hp: usize) -> usize {
    let monster_id = game.entities.len() + 2;
    let monster = test_card(
        monster_id,
        "Test Monster",
        owner,
        Location::Field(position),
        CardTypeInstance::Monster(test_monster(2, hp, max_hp, false)),
    );
    game.entities.push(monster);
    monster_id
}

fn create_test_monster_in_hand(
    game: &mut Game,
    owner: usize,
    attack: usize,
    hp: usize,
    keywords: Vec<Keyword>,
    on_play: Vec<Effect>,
) -> usize {
    let monster_id = game.entities.len() + 2;
    let mut state = test_monster(attack, hp, hp, true);
    state.keywords = keywords;
    state.on_play = on_play;
    let mut monster = test_card(
        monster_id,
        "Test Monster in Hand",
        owner,
        Location::Hand,
        CardTypeInstance::Monster(state),
    );
    monster.template_id = 9997;
    game.entities.push(monster);
    monster_id
}

fn create_test_monster_with_on_death(
    game: &mut Game,
    owner: usize,
    position: usize,
    hp: usize,
    max_hp: usize,
    on_death: Vec<Effect>,
) -> usize {
    let monster_id = game.entities.len() + 2;
    let mut state = test_monster(2, hp, max_hp, false);
    state.on_death = on_death
        .into_iter()
        .map(|effect| update_effect_initiator(effect, monster_id))
        .collect();
    let mut monster = test_card(
        monster_id,
        "Test Monster with On Death",
        owner,
        Location::Field(position),
        CardTypeInstance::Monster(state),
    );
    monster.template_id = 9996;
    game.entities.push(monster);
    monster_id
}

fn create_test_monster_with_attack(
    game: &mut Game,
    owner: usize,
    position: usize,
    attack: usize,
    hp: usize,
    max_hp: usize,
) -> usize {
    let monster_id = game.entities.len() + 2;
    let monster = test_card(
        monster_id,
        "Test Monster",
        owner,
        Location::Field(position),
        CardTypeInstance::Monster(test_monster(attack, hp, max_hp, false)),
    );
    game.entities.push(monster);
    monster_id
}

fn create_test_monster_with_on_attack(
    game: &mut Game,
    owner: usize,
    position: usize,
    attack: usize,
    hp: usize,
    on_attack: Vec<Effect>,
) -> usize {
    let monster_id = game.entities.len() + 2;
    let mut state = test_monster(attack, hp, hp, false);
    state.on_attack = on_attack
        .into_iter()
        .map(|effect| update_effect_initiator(effect, monster_id))
        .collect();
    let mut monster = test_card(
        monster_id,
        "Test Monster with On Attack",
        owner,
        Location::Field(position),
        CardTypeInstance::Monster(state),
    );
    monster.template_id = 9997;
    game.entities.push(monster);
    monster_id
}

fn add_card_to_deck(game: &mut Game, owner: usize) -> usize {
    let card_id = game.entities.len() + 2;
    let mut card = test_card(
        card_id,
        "Test Card in Deck",
        owner,
        Location::Deck,
        CardTypeInstance::Monster(test_monster(1, 1, 1, true)),
    );
    card.template_id = 9995;
    game.entities.push(card);
    card_id
}

fn add_card_to_hand(game: &mut Game, owner: usize) -> usize {
    let card_id = game.entities.len() + 2;
    let mut card = test_card(
        card_id,
        "Test Card in Hand",
        owner,
        Location::Hand,
        CardTypeInstance::Monster(test_monster(1, 1, 1, true)),
    );
    card.template_id = 9994;
    game.entities.push(card);
    card_id
}

use back::session::{audience, follow_turn, perform, Audience, PlayerActionCommand};

#[test]
fn each_action_has_its_audience() {
    let game = create_test_game();
    let view = PublicGameState::new(&game, 1).unwrap();
    assert_eq!(audience(&Action::UpdateGameView { player: 1, game: view }), Audience::Player(1));
    assert_eq!(audience(&Action::EnemyDraw { player: 0 }), Audience::Player(0));
    let mut other = create_test_game();
    let id = add_card_to_hand(&mut other, 1);
    let drawn = card(&other, id).clone();
    assert_eq!(audience(&Action::Draw { player: 1, card: drawn }), Audience::Player(1));
    assert_eq!(audience(&Action::Win(0)), Audience::EveryoneAndStop);
    assert_eq!(audience(&Action::StartTurn(1)), Audience::Turn(1));
    assert_eq!(audience(&Action::BurnCard { player: 1, card: 3 }), Audience::Everyone);
    assert_eq!(audience(&Action::Destroy { target: 3 }), Audience::Everyone);
    assert_eq!(audience(&Action::TriggerOnDeath(3)), Audience::Everyone);
}

#[test]
fn the_turn_follows_the_actions_up_to_a_win() {
    assert_eq!(follow_turn(0, &vec![]), (0, false));
    assert_eq!(follow_turn(0, &vec![Action::Destroy { target: 3 }]), (0, false));
    assert_eq!(
        follow_turn(0, &vec![Action::StartTurn(1), Action::Destroy { target: 3 }]),
        (1, false)
    );
    assert_eq!(
        follow_turn(0, &vec![Action::StartTurn(1), Action::StartTurn(0)]),
        (0, false)
    );
    assert_eq!(
        follow_turn(0, &vec![Action::StartTurn(1), Action::Win(0), Action::StartTurn(0)]),
        (1, true)
    );
}

#[test]
fn a_command_is_carried_out_and_shown_to_both() {
    let mut game = create_test_game();
    let attacker = create_test_monster_with_attack(&mut game, 0, 0, 5, 10, 10);
    let (actions, game) =
        perform(game, 0, PlayerActionCommand::Attack { initiator: attacker, target: 1 }).unwrap();
    assert_eq!(player(&game, 1).hp, 25);
    assert_eq!(actions.len(), 4);
    assert!(matches!(actions[0], Action::Attack { .. }));
    assert!(matches!(actions[1], Action::ReceiveDamage { target: 1, amount: 5 }));
    match (&actions[2], &actions[3]) {
        (
            Action::UpdateGameView { player: 0, game: own },
            Action::UpdateGameView { player: 1, game: other },
        ) => {
            assert_eq!((own.player_id, own.enemy.hero.hp, own.player.field.len()), (0, 25, 1));
            assert_eq!((other.player_id, other.player.hero.hp, other.enemy.field.len()), (1, 25, 1));
            assert_eq!(own.player.hero.name, "Player");
            assert_eq!(own.enemy.hero.name, "Enemy");
        }
        _ => panic!("Expected two views"),
    }

    let (actions, game) =
        perform(game, 0, PlayerActionCommand::Move { card_id: attacker, position: 2 }).unwrap();
    assert_eq!(card(&game, attacker).location, Location::Field(2));
    assert_eq!(player(&game, 0).move_count, 2);
    assert_eq!(actions.len(), 2);

    let failed = perform(
        game.clone(),
        0,
        PlayerActionCommand::Move { card_id: attacker, position: 7 },
    );
    assert_eq!(failed.unwrap_err().to_string(), "Game Logic Error: Target position is not valid");
}

#[test]
fn every_command_has_its_entry() {
    let mut game = create_test_game();
    game.vs_ia = false;
    player_mut(&mut game, 0).mana = 3;
    let monster = create_test_monster_in_hand(&mut game, 0, 2, 2, vec![], vec![]);
    let spell = create_test_spell(
        &mut game,
        0,
        vec![Effect::DealDamage { initiator: 0, target: Target::EnnemyPlayer, amount: 4 }],
    );
    let (actions, game) = back::play_monster(game, 0, monster, 4, None).unwrap();
    assert_eq!(card(&game, monster).location, Location::Field(4));
    assert_eq!(actions.len(), 3);
    assert!(matches!(actions[0], Action::Summon { source: Location::Hand, destination: 4, .. }));
    let (actions, game) = back::play_spell(game, 0, spell, None).unwrap();
    assert_eq!(player(&game, 1).hp, 26);
    assert_eq!(actions.len(), 3);
    let (actions, game) = back::move_card(game, 0, monster, 5).unwrap();
    assert_eq!(card(&game, monster).location, Location::Field(5));
    let (actions, game) = back::end_turn(game, 0).unwrap();
    assert_eq!(game.current_player, 1);
    assert!(matches!(actions[0], Action::StartTurn(1)));
    let (actions, game) = perform(game, 1, PlayerActionCommand::EndTurn).unwrap();
    assert_eq!(game.current_player, 0);
    let (actions, game) = back::attack(game, 0, monster, 1).unwrap();
    assert_eq!(player(&game, 1).hp, 24);
    let grave = create_test_game();
    assert!(back::attack(grave, 0, 5, 1).is_err());
}
