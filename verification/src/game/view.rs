//! What one player may see of a game.

use crate::collection::Archetype;
use crate::error::{Fault, Result};
use crate::game::card::{cards_view, CardInstance, CardView};
use crate::game::model::{count, opponent_of, player_index, select_cards, GameView, Selector};
use crate::game::types::{Location, PlayerId};
use crate::game::Game;
use vstd::prelude::*;

verus! {

/// A hero as shown to a player.
#[derive(Debug)]
pub struct HeroInfo {
    pub id: usize,
    pub name: String,
    pub hp: usize,
    pub archetype: Archetype,
}

/// The opponent's side, with the hand hidden behind its size.
#[derive(Debug)]
pub struct EnemyInfo {
    pub secret_card: bool,
    pub field: Vec<CardInstance>,
    pub max_mana: usize,
    pub current_mana: usize,
    pub hand: usize,
    pub hero: HeroInfo,
    pub deck_size: usize,
}

/// The viewer's own side.
#[derive(Debug)]
pub struct PlayerInfo {
    pub secret_card: Option<CardInstance>,
    pub field: Vec<CardInstance>,
    pub max_mana: usize,
    pub current_mana: usize,
    pub move_count: usize,
    pub max_move: usize,
    pub hand: Vec<CardInstance>,
    pub hero: HeroInfo,
    pub deck_size: usize,
}

/// The state of a game as one player may see it.
#[derive(Debug)]
pub struct PublicGameState {
    pub game_id: u128,
    pub player_id: usize,
    pub turn: usize,
    pub enemy: EnemyInfo,
    pub player: PlayerInfo,
    pub winner_id: Option<usize>,
}

/// The mathematical value of a [`HeroInfo`].
pub ghost struct HeroInfoView {
    pub id: usize,
    pub name: Seq<char>,
    pub hp: usize,
    pub archetype: Archetype,
}

/// The mathematical value of an [`EnemyInfo`].
pub ghost struct EnemyInfoView {
    pub secret_card: bool,
    pub field: Seq<CardView>,
    pub max_mana: usize,
    pub current_mana: usize,
    pub hand: usize,
    pub hero: HeroInfoView,
    pub deck_size: usize,
}

/// The mathematical value of a [`PlayerInfo`].
pub ghost struct PlayerInfoView {
    pub secret_card: Option<CardView>,
    pub field: Seq<CardView>,
    pub max_mana: usize,
    pub current_mana: usize,
    pub move_count: usize,
    pub max_move: usize,
    pub hand: Seq<CardView>,
    pub hero: HeroInfoView,
    pub deck_size: usize,
}

/// The mathematical value of a [`PublicGameState`].
pub ghost struct PublicGameStateView {
    pub game_id: u128,
    pub player_id: usize,
    pub turn: usize,
    pub enemy: EnemyInfoView,
    pub player: PlayerInfoView,
    pub winner_id: Option<usize>,
}

impl View for HeroInfo {
    type V = HeroInfoView;

    open spec fn view(&self) -> HeroInfoView {
        HeroInfoView { id: self.id, name: self.name@, hp: self.hp, archetype: self.archetype }
    }
}

impl View for EnemyInfo {
    type V = EnemyInfoView;

    open spec fn view(&self) -> EnemyInfoView {
        EnemyInfoView {
            secret_card: self.secret_card,
            field: cards_view(self.field@),
            max_mana: self.max_mana,
            current_mana: self.current_mana,
            hand: self.hand,
            hero: self.hero@,
            deck_size: self.deck_size,
        }
    }
}

impl View for PlayerInfo {
    type V = PlayerInfoView;

    open spec fn view(&self) -> PlayerInfoView {
        PlayerInfoView {
            secret_card: match self.secret_card {
                Some(c) => Some(c@),
                None => None,
            },
            field: cards_view(self.field@),
            max_mana: self.max_mana,
            current_mana: self.current_mana,
            move_count: self.move_count,
            max_move: self.max_move,
            hand: cards_view(self.hand@),
            hero: self.hero@,
            deck_size: self.deck_size,
        }
    }
}

impl View for PublicGameState {
    type V = PublicGameStateView;

    open spec fn view(&self) -> PublicGameStateView {
        PublicGameStateView {
            game_id: self.game_id,
            player_id: self.player_id,
            turn: self.turn,
            enemy: self.enemy@,
            player: self.player@,
            winner_id: self.winner_id,
        }
    }
}

/// What the player `player_id` may see of the state `g`: the own side in full,
/// and of the opponent's side the field, the mana and the hero, with the hand
/// and the deck as numbers only.
pub open spec fn public_view(g: GameView, player_id: PlayerId) -> std::result::Result<
    PublicGameStateView,
    Fault,
> {
    match player_index(g.players, player_id) {
        None => Err(Fault::PlayerNotFound(player_id)),
        Some(hi) => match opponent_of(g.players, player_id) {
            None => Err(Fault::OpponentNotFound(player_id)),
            Some(q) => match player_index(g.players, q) {
                None => Err(Fault::PlayerNotFound(q)),
                Some(oi) => {
                    let hero = g.players[hi];
                    let opponent = g.players[oi];
                    Ok(
                        PublicGameStateView {
                            game_id: g.game_id,
                            player_id,
                            turn: g.turn,
                            enemy: EnemyInfoView {
                                secret_card: false,
                                field: select_cards(g.entities, Selector::FieldOf(q)),
                                max_mana: opponent.base_mana,
                                current_mana: opponent.mana,
                                hand: count(g.entities, Selector::HandOf(q)) as usize,
                                hero: HeroInfoView {
                                    id: opponent.player_id,
                                    name: "Enemy"@,
                                    hp: opponent.hp,
                                    archetype: opponent.archetype,
                                },
                                deck_size: count(g.entities, Selector::DeckOf(q)) as usize,
                            },
                            player: PlayerInfoView {
                                secret_card: None,
                                field: select_cards(g.entities, Selector::FieldOf(player_id)),
                                max_mana: hero.base_mana,
                                current_mana: hero.mana,
                                move_count: hero.move_count,
                                max_move: hero.max_move,
                                hand: select_cards(g.entities, Selector::HandOf(player_id)),
                                hero: HeroInfoView {
                                    id: hero.player_id,
                                    name: "Player"@,
                                    hp: hero.hp,
                                    archetype: hero.archetype,
                                },
                                deck_size: count(g.entities, Selector::DeckOf(player_id)) as usize,
                            },
                            winner_id: g.winner_id,
                        },
                    )
                },
            },
        },
    }
}

/// Copies the cards that `cards` points to.
pub fn clone_cards(cards: &Vec<&CardInstance>) -> (r: Vec<CardInstance>)
    ensures
        cards_view(r@) == cards@.map_values(|c: &CardInstance| c@),
{
    let mut out: Vec<CardInstance> = Vec::new();
    let mut i: usize = 0;
    while i < cards.len()
        invariant
            i <= cards.len(),
            out.len() == i,
            forall|j: int| 0 <= j < i ==> out@[j]@ == cards@[j]@,
        decreases cards.len() - i,
    {
        out.push(cards[i].clone());
        i += 1;
    }
    assert(cards_view(out@) =~= cards@.map_values(|c: &CardInstance| c@));
    out
}

impl PlayerInfo {
    /// The first card of the field that stands on `slot`, if there is one.
    pub fn field_card(&self, slot: usize) -> (r: Option<&CardInstance>)
        ensures
            found(r) == first_on_slot(self.field@, slot),
    {
        card_on_slot(&self.field, slot)
    }
}

impl EnemyInfo {
    /// The first card of the field that stands on `slot`, if there is one.
    pub fn field_card(&self, slot: usize) -> (r: Option<&CardInstance>)
        ensures
            found(r) == first_on_slot(self.field@, slot),
    {
        card_on_slot(&self.field, slot)
    }
}

/// The first of `cards` from the place `from` on that stands on `slot` of the
/// field, if there is one.
pub open spec fn on_slot_from(cards: Seq<CardInstance>, slot: usize, from: int) -> Option<
    CardInstance,
>
    decreases cards.len() - from,
{
    if from < 0 || from >= cards.len() {
        None
    } else if cards[from].location == Location::Field(slot) {
        Some(cards[from])
    } else {
        on_slot_from(cards, slot, from + 1)
    }
}

/// The card that `r` points to, if it points to one.
pub open spec fn found(r: Option<&CardInstance>) -> Option<CardInstance> {
    match r {
        Some(c) => Some(*c),
        None => None,
    }
}

/// The first of `cards` that stands on `slot` of the field, if there is one.
pub open spec fn first_on_slot(cards: Seq<CardInstance>, slot: usize) -> Option<CardInstance> {
    on_slot_from(cards, slot, 0)
}

/// The first of `cards` that stands on `slot` of the field, if there is one.
pub fn card_on_slot(cards: &Vec<CardInstance>, slot: usize) -> (r: Option<&CardInstance>)
    ensures
        found(r) == first_on_slot(cards@, slot),
{
    let mut i: usize = 0;
    while i < cards.len()
        invariant
            i <= cards.len(),
            first_on_slot(cards@, slot) == on_slot_from(cards@, slot, i as int),
        decreases cards.len() - i,
    {
        let on_slot = match cards[i].location {
            Location::Field(s) => s == slot,
            _ => false,
        };
        if on_slot {
            return Some(&cards[i]);
        }
        i += 1;
    }
    None
}

impl PublicGameState {
    /// What the player `player_id` may see of `game_state`.
    pub fn new(game_state: &Game, player_id: PlayerId) -> (r: Result<Self>)
        ensures
            match r {
                Ok(v) => public_view(game_state@, player_id) == Ok::<PublicGameStateView, Fault>(v@),
                Err(e) => public_view(game_state@, player_id) is Err && e@ == public_view(
                    game_state@,
                    player_id,
                )->Err_0.error_view(),
            },
    {
        let hi = match game_state.find_player(player_id) {
            None => {
                return Err(Fault::PlayerNotFound(player_id).to_error());
            },
            Some(hi) => hi,
        };
        let opponent_id = match game_state.opponent_id(player_id) {
            None => {
                return Err(Fault::OpponentNotFound(player_id).to_error());
            },
            Some(q) => q,
        };
        let oi = match game_state.find_player(opponent_id) {
            None => {
                return Err(Fault::PlayerNotFound(opponent_id).to_error());
            },
            Some(oi) => oi,
        };
        let hero = game_state.players[hi];
        let opponent = game_state.players[oi];
        let hero_field = clone_cards(&game_state.find_cards(Selector::FieldOf(player_id)));
        let enemy_field = clone_cards(&game_state.find_cards(Selector::FieldOf(opponent_id)));
        let player_hand = clone_cards(&game_state.find_cards(Selector::HandOf(player_id)));
        let enemy_hand_size = game_state.find_ids(Selector::HandOf(opponent_id)).len();
        let player_deck_size = game_state.find_ids(Selector::DeckOf(player_id)).len();
        let enemy_deck_size = game_state.find_ids(Selector::DeckOf(opponent_id)).len();
        Ok(
            Self {
                game_id: game_state.game_id,
                player_id,
                enemy: EnemyInfo {
                    secret_card: false,
                    field: enemy_field,
                    max_mana: opponent.base_mana,
                    current_mana: opponent.mana,
                    hand: enemy_hand_size,
                    hero: HeroInfo {
                        id: opponent.player_id,
                        name: String::from_str("Enemy"),
                        hp: opponent.hp,
                        archetype: opponent.archetype,
                    },
                    deck_size: enemy_deck_size,
                },
                player: PlayerInfo {
                    secret_card: None,
                    field: hero_field,
                    max_mana: hero.base_mana,
                    current_mana: hero.mana,
                    hand: player_hand,
                    hero: HeroInfo {
                        id: hero.player_id,
                        name: String::from_str("Player"),
                        hp: hero.hp,
                        archetype: hero.archetype,
                    },
                    max_move: hero.max_move,
                    move_count: hero.move_count,
                    deck_size: player_deck_size,
                },
                winner_id: game_state.winner_id,
                turn: game_state.turn,
            },
        )
    }
}

} // verus!
