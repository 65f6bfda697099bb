#![allow(dead_code, unused_imports, unused_variables, unused_mut)]
// Each way in which the engine refuses, and what it says then.

use back::collection::types::{
    CardTemplate, CardTypeTemplate, MonsterTemplate, PlayTarget, TargetMatcher,
};
use back::collection::{Archetype, Class};
use back::game::action::Action;
use back::game::card::{CardInstance, CardTypeInstance, Keyword, MonsterInstance, SpellInstance};
use back::game::effects::{Effect, PlayerTarget, Target};
use back::game::player::PlayerInstance;
use back::game::types::Location;
use back::game::view::PublicGameState;
use back::game::Game;
use back::Race;
use std::collections::VecDeque;

fn create_test_game() -> Game {
    let player_id_a = 0;
    let player_id_b = 1;
    Game {
        game_id: 7,
        player_id_a,
        player_id_b,
        entities: Vec::new(),
        effect_queue: VecDeque::new(),
        players: vec![
            PlayerInstance::new(player_id_a, 1, Archetype::Race(Race::COMMON)),
            PlayerInstance::new(player_id_b, 0, Archetype::Race(Race::COMMON)),
        ],
        turn: 1,
        current_player: player_id_a,
        winner_id: None,
        vs_ia: true,
    }
}

fn card(game: &Game, id: usize) -> &CardInstance {
    game.get_entity(id).unwrap()
}

fn card_mut(game: &mut Game, id: usize) -> &mut CardInstance {
    game.get_mut_entity(id).unwrap()
}

fn player(game: &Game, id: usize) -> &PlayerInstance {
    game.get_player(id).unwrap()
}

fn player_mut(game: &mut Game, id: usize) -> &mut PlayerInstance {
    game.get_mut_player(id).unwrap()
}

fn test_card(id: usize, name: &str, owner: usize, location: Location, card_type: CardTypeInstance) -> CardInstance {
    CardInstance {
        id,
        name: name.to_string(),
        description: "Test".to_string(),
        template_id: 9998,
        race: Race::COMMON,
        class: Class::COMMON,
        cost: 0,
        play_target: None,
        owner,
        location,
        card_type,
    }
}

fn test_monster(attack: usize, hp: usize, max_hp: usize, asleep: bool) -> MonsterInstance {
    MonsterInstance {
        attack,
        hp,
        max_hp,
        asleep,
        attack_count: 0,
        keywords: vec![],
        on_play: vec![],
        on_attack: vec![],
        on_death: vec![],
    }
}

fn create_test_spell(game: &mut Game, owner: usize, effects: Vec<Effect>) -> usize {
    let spell_id = game.entities.len() + 2;
    let effects = effects
        .into_iter()
        .map(|effect| update_effect_initiator(effect, spell_id))
        .collect();
    let mut spell = test_card(
        spell_id,
        "Test Spell",
        owner,
        Location::Hand,
        CardTypeInstance::Spell(SpellInstance { effect: effects }),
    );
    spell.description = "Test spell".to_string();
    spell.template_id = 9999;
    game.entities.push(spell);
    spell_id
}

fn update_effect_initiator(effect: Effect, initiator_id: usize) -> Effect {
    match effect {
        Effect::Heal { target, amount, .. } => Effect::Heal { initiator: initiator_id, target, amount },
        Effect::DealDamage { target, amount, .. } => {
            Effect::DealDamage { initiator: initiator_id, target, amount }
        }
        Effect::Boost { target, attack, hp, .. } => {
            Effect::Boost { initiator: initiator_id, target, attack, hp }
        }
        Effect::Destroy { target, .. } => Effect::Destroy { initiator: initiator_id, target },
        Effect::MakeDraw { player, amount, .. } => {
            Effect::MakeDraw { initiator: initiator_id, player, amount }
        }
        Effect::IncreaseMaxMana { player, amount, .. } => {
            Effect::IncreaseMaxMana { initiator: initiator_id, player, amount }
        }
        Effect::RefreshMana { player, amount, .. } => {
            Effect::RefreshMana { initiator: initiator_id, player, amount }
        }
        Effect::Attack { target, .. } => Effect::Attack { initiator: initiator_id, target },
        Effect::AutoDraw { player, amount } => Effect::AutoDraw { player, amount },
        Effect::Win(player) => Effect::Win(player),
        Effect::Summon { side, target, .. } => Effect::Summon { initiator: initiator_id, side, target },
        Effect::SummonFromHand { entity_id, position } => {
            Effect::SummonFromHand { entity_id, position }
        }
    }
}

fn create_test_monster(game: &mut Game, owner: usize, position: usize, hp: usize, max_hp: usize) -> usize {
    let monster_id = game.entities.len() + 2;
    let monster = test_card(
        monster_id,
        "Test Monster",
        owner,
        Location::Field(position),
        CardTypeInstance::Monster(test_monster(2, hp, max_hp, false)),
    );
    game.entities.push(monster);
    monster_id
}

fn create_test_monster_in_hand(
    game: &mut Game,
    owner: usize,
    attack: usize,
    hp: usize,
    keywords: Vec<Keyword>,
    on_play: Vec<Effect>,
) -> usize {
    let monster_id = game.entities.len() + 2;
    let mut state = test_monster(attack, hp, hp, true);
    state.keywords = keywords;
    state.on_play = on_play;
    let mut monster = test_card(
        monster_id,
        "Test Monster in Hand",
        owner,
        Location::Hand,
        CardTypeInstance::Monster(state),
    );
    monster.template_id = 9997;
    game.entities.push(monster);
    monster_id
}

fn create_test_monster_with_on_death(
    game: &mut Game,
    owner: usize,
    position: usize,
    hp: usize,
    max_hp: usize,
    on_death: Vec<Effect>,
) -> usize {
    let monster_id = game.entities.len() + 2;
    let mut state = test_monster(2, hp, max_hp, false);
    state.on_death = on_death
        .into_iter()
        .map(|effect| update_effect_initiator(effect, monster_id))
        .collect();
    let mut monster = test_card(
        monster_id,
        "Test Monster with On Death",
        owner,
        Location::Field(position),
        CardTypeInstance::Monster(state),
    );
    monster.template_id = 9996;
    game.entities.push(monster);
    monster_id
}

fn create_test_monster_with_attack(
    game: &mut Game,
    owner: usize,
    position: usize,
    attack: usize,
    hp: usize,
    max_hp: usize,
) -> usize {
    let monster_id = game.entities.len() + 2;
    let monster = test_card(
        monster_id,
        "Test Monster",
        owner,
        Location::Field(position),
        CardTypeInstance::Monster(test_monster(attack, hp, max_hp, false)),
    );
    game.entities.push(monster);
    monster_id
}

fn create_test_monster_with_on_attack(
    game: &mut Game,
    owner: usize,
    position: usize,
    attack: usize,
    hp: usize,
    on_attack: Vec<Effect>,
) -> usize {
    let monster_id = game.entities.len() + 2;
    let mut state = test_monster(attack, hp, hp, false);
    state.on_attack = on_attack
        .into_iter()
        .map(|effect| update_effect_initiator(effect, monster_id))
        .collect();
    let mut monster = test_card(
        monster_id,
        "Test Monster with On Attack",
        owner,
        Location::Field(position),
        CardTypeInstance::Monster(state),
    );
    monster.template_id = 9997;
    game.entities.push(monster);
    monster_id
}

fn add_card_to_deck(game: &mut Game, owner: usize) -> usize {
    let card_id = game.entities.len() + 2;
    let mut card = test_card(
        card_id,
        "Test Card in Deck",
        owner,
        Location::Deck,
        CardTypeInstance::Monster(test_monster(1, 1, 1, true)),
    );
    card.template_id = 9995;
    game.entities.push(card);
    card_id
}

fn add_card_to_hand(game: &mut Game, owner: usize) -> usize {
    let card_id = game.entities.len() + 2;
    let mut card = test_card(
        card_id,
        "Test Card in Hand",
        owner,
        Location::Hand,
        CardTypeInstance::Monster(test_monster(1, 1, 1, true)),
    );
    card.template_id = 9994;
    game.entities.push(card);
    card_id
}

use back::error::{decimal_string, Error, Fault};
use back::game::get_linked_positions;
use back::game::logic::execute_effect;
use back::ia::determine_game_mode;
use back::UserDeck;

fn message<T: std::fmt::Debug>(r: Result<T, Error>) -> String {
    r.unwrap_err().to_string()
}

fn run(game: &mut Game, effect: Effect) -> String {
    message(execute_effect(&effect, game))
}

fn spell_on_field(game: &mut Game, owner: usize, slot: usize) -> usize {
    let id = create_test_spell(game, owner, vec![]);
    card_mut(game, id).location = Location::Field(slot);
    id
}

#[test]
fn every_kind_of_error_has_its_text() {
    assert_eq!(Error::Game("x".to_string()).to_string(), "Game Logic Error: x");
    assert_eq!(
        Error::MutexPoisoned.to_string(),
        "Failed to acquire lock on application state. The app may be in an inconsistent state."
    );
    assert_eq!(Error::Json("y".to_string()).to_string(), "JSON Serialization Error: y");
    assert_eq!(Error::GameNotStarted.to_string(), "Game is not started yet");
    assert_eq!(Error::from_message("z").to_string(), "Game Logic Error: z");
}

#[test]
fn numbers_are_written_in_decimal() {
    assert_eq!(decimal_string(0), "0");
    assert_eq!(decimal_string(7), "7");
    assert_eq!(decimal_string(10), "10");
    assert_eq!(decimal_string(1234567890), "1234567890");
    assert_eq!(decimal_string(usize::MAX), usize::MAX.to_string());
}

#[test]
fn faults_carry_their_numbers() {
    assert_eq!(
        Fault::WrongTargetCount(2).to_error().to_string(),
        "Game Logic Error: Wrong quantity of targets selected (required: 2)"
    );
    assert_eq!(
        Fault::TooManyTargets(13).to_error().to_string(),
        "Game Logic Error: Too many targets selected (maximum: 13)"
    );
    assert_eq!(
        Fault::DrainLimit.to_error().to_string(),
        "Game Logic Error: The effect queue did not run dry"
    );
}

#[test]
fn lookups_name_what_is_missing() {
    let game = create_test_game();
    assert_eq!(message(game.get_entity(99)), "Game Logic Error: Card with id 99 not found");
    assert_eq!(message(game.get_player(5)), "Game Logic Error: Player with id 5 not found");
    assert_eq!(
        message(PublicGameState::new(&game, 4)),
        "Game Logic Error: Player with id 4 not found"
    );
    assert_eq!(
        message(get_linked_positions(8)),
        "Game Logic Error: Invalid starting position"
    );
}

#[test]
fn a_lone_player_has_no_opponent() {
    let mut game = create_test_game();
    game.players.pop();
    assert_eq!(
        message(game.get_opponent(&0)),
        "Game Logic Error: Opponent not found for player with id 0"
    );
    assert_eq!(
        message(game.end_turn(0)),
        "Game Logic Error: Opponent not found for player with id 0"
    );
    assert_eq!(
        message(determine_game_mode(&game, 0)),
        "Game Logic Error: Opponent not found for player 0"
    );
    assert_eq!(
        message(determine_game_mode(&game, 7)),
        "Game Logic Error: AI player 7 not found"
    );
    assert_eq!(
        run(&mut game, Effect::Heal { initiator: 0, target: Target::Player, amount: 1 }),
        "Game Logic Error: Opponent not found for player with id 0"
    );
}

#[test]
fn a_third_player_makes_the_opponent_unclear() {
    let mut game = create_test_game();
    game.players.push(PlayerInstance::new(2, 0, Archetype::Race(Race::COMMON)));
    assert!(game.get_opponent(&0).is_err());
    assert_eq!(game.opponent_id(0), None);
}

#[test]
fn effects_fail_on_what_is_not_there() {
    let mut game = create_test_game();
    assert_eq!(
        run(&mut game, Effect::Heal { initiator: 50, target: Target::Player, amount: 1 }),
        "Game Logic Error: Card with id 50 not found"
    );
    assert_eq!(
        run(&mut game, Effect::Destroy { initiator: 0, target: Target::ItSelf }),
        "Game Logic Error: Entity with id 0 not found for destroy"
    );
    assert_eq!(
        run(&mut game, Effect::Attack { initiator: 0, target: Target::EnnemyPlayer }),
        "Game Logic Error: Entity with id 0 not found for attack"
    );
    assert_eq!(
        run(&mut game, Effect::SummonFromHand { entity_id: 99, position: 0 }),
        "Game Logic Error: Entity with id 99 not found for summon from hand"
    );
    assert_eq!(
        run(&mut game, Effect::DealDamage { initiator: 0, target: Target::ItSelf, amount: 1 }),
        "Game Logic Error: Card with id 0 not found"
    );
}

#[test]
fn effects_for_monsters_fail_on_spells() {
    let mut game = create_test_game();
    let spell = spell_on_field(&mut game, 1, 0);
    let monster = create_test_monster(&mut game, 0, 0, 5, 5);
    let target = || Target::Id(spell);
    assert_eq!(
        run(&mut game, Effect::DealDamage { initiator: 0, target: target(), amount: 1 }),
        "Game Logic Error: Can't deal damage to a spell"
    );
    assert_eq!(
        run(&mut game, Effect::Heal { initiator: 0, target: target(), amount: 1 }),
        "Game Logic Error: Can't heal a spell"
    );
    assert_eq!(
        run(&mut game, Effect::Boost { initiator: 0, attack: 1, hp: 1, target: target() }),
        "Game Logic Error: Can't boost a spell"
    );
    assert_eq!(
        run(&mut game, Effect::Attack { initiator: monster, target: target() }),
        "Game Logic Error: Can't attack a spell"
    );
    assert_eq!(
        run(&mut game, Effect::Attack { initiator: spell, target: Target::Id(monster) }),
        "Game Logic Error: Can't attack with a spell"
    );
    assert_eq!(
        run(&mut game, Effect::SummonFromHand { entity_id: spell, position: 4 }),
        "Game Logic Error: Can't summon a spell"
    );
    assert_eq!(card(&game, spell).location, Location::Field(4));
    assert_eq!(
        message(game.end_turn(0)),
        "Game Logic Error: There shouldn't be spell on the field"
    );
    assert_eq!(game.current_player, 0);
}

#[test]
fn numbers_that_grow_too_large_stop_the_effect() {
    let mut game = create_test_game();
    let monster = create_test_monster(&mut game, 0, 0, 5, 5);
    assert_eq!(
        run(
            &mut game,
            Effect::Boost { initiator: 0, attack: usize::MAX, hp: 1, target: Target::Id(monster) }
        ),
        "Game Logic Error: A value grew past what the engine can count"
    );
    match &card(&game, monster).card_type {
        CardTypeInstance::Monster(m) => assert_eq!((m.attack, m.hp, m.max_hp), (2, 5, 5)),
        _ => panic!("Expected monster"),
    }
    assert_eq!(
        run(
            &mut game,
            Effect::IncreaseMaxMana {
                initiator: 0,
                player: PlayerTarget::Player,
                amount: usize::MAX
            }
        ),
        "Game Logic Error: A value grew past what the engine can count"
    );
    assert_eq!(player(&game, 0).base_mana, 1);
}

#[test]
fn a_summon_needs_a_free_id() {
    let mut game = create_test_game();
    let monster = create_test_monster(&mut game, 0, 0, 5, 5);
    card_mut(&mut game, monster).id = usize::MAX;
    let template = CardTemplate {
        id: 1,
        cost: 1,
        name: "Token".to_string(),
        description: "Test".to_string(),
        race: Race::COMMON,
        class: Class::COMMON,
        play_target: None,
        card_type: CardTypeTemplate::Monster(MonsterTemplate {
            attack: 1,
            hp: 1,
            keywords: vec![],
            on_play: vec![],
            on_attack: vec![],
            on_death: vec![],
        }),
    };
    assert_eq!(
        run(&mut game, Effect::Summon { initiator: 0, side: PlayerTarget::Player, target: template }),
        "Game Logic Error: No identifier is left for a new card"
    );
    assert_eq!(game.entities.len(), 1);
}

#[test]
fn commands_refuse_what_the_rules_forbid() {
    let mut game = create_test_game();
    let mine = create_test_monster(&mut game, 0, 0, 5, 5);
    let theirs = create_test_monster(&mut game, 1, 0, 5, 5);
    assert_eq!(
        message(game.attack(0, theirs, mine)),
        "Game Logic Error: You can only attack with your own monsters"
    );
    assert_eq!(
        message(game.attack(0, 77, mine)),
        "Game Logic Error: Attacker with id 77 not found"
    );
    assert_eq!(
        message(game.attack(0, mine, 78)),
        "Game Logic Error: Target with id 78 not found"
    );
    assert_eq!(
        message(game.move_card(0, 79, 1)),
        "Game Logic Error: Card with id 79 not found"
    );
    assert_eq!(
        message(game.play_monster(0, 80, 1, None)),
        "Game Logic Error: Card with id 80 not found"
    );
    assert_eq!(
        message(game.play_spell(0, 81, None)),
        "Game Logic Error: Card with id 81 not found"
    );
    let in_hand = add_card_to_hand(&mut game, 0);
    assert_eq!(
        message(game.play_monster(9, in_hand, 1, None)),
        "Game Logic Error: Player with id 9 not found"
    );
    card_mut(&mut game, mine).location = Location::Field(12);
    assert_eq!(
        message(game.move_card(0, mine, 1)),
        "Game Logic Error: Invalid starting position"
    );
    assert!(game.effect_queue.is_empty());
}

#[test]
fn a_deck_must_come_from_the_collection() {
    let deck = |cards: Vec<usize>| UserDeck { cards, archetype: Archetype::Race(Race::HUMAN) };
    let result = Game::new(
        deck(vec![1, 4]),
        deck(vec![1, 424242]),
        back::get_collection(Archetype::Race(Race::HUMAN)),
        back::get_collection(Archetype::Race(Race::HUMAN)),
        false,
    );
    assert_eq!(message(result), "Game Logic Error: Template with id 424242 not found");
}
