//! The mathematical model of a game: what a state is, and how it is searched.
//!
//! Entities and players are kept in the order in which they entered the game.
//! Looking up an id finds the first entry that carries it; lists of cards come
//! out in that same order. This order is what makes resolution deterministic.

use crate::error::Fault;
use crate::game::action::ActionView;
use crate::game::card::{has_keyword, CardTypeView, CardView, Keyword, MonsterView};
use crate::game::effects::EffectView;
use crate::game::player::PlayerInstance;
use crate::game::types::{InstanceId, Location, PlayerId};
use vstd::prelude::*;

verus! {

/// The mathematical value of a [`crate::game::Game`].
pub ghost struct GameView {
    pub game_id: u128,
    pub player_id_a: PlayerId,
    pub player_id_b: PlayerId,
    pub entities: Seq<CardView>,
    pub effect_queue: Seq<EffectView>,
    pub players: Seq<PlayerInstance>,
    pub turn: usize,
    pub current_player: PlayerId,
    pub winner_id: Option<PlayerId>,
    pub vs_ia: bool,
}

/// What running some part of the engine came to: the state reached, the events
/// recorded on the way, and the reason it stopped early, if it did.
pub ghost struct Outcome {
    pub game: GameView,
    pub actions: Seq<ActionView>,
    pub fault: Option<Fault>,
}

/// The outcome of doing nothing in state `g`.
pub open spec fn start(g: GameView) -> Outcome {
    Outcome { game: g, actions: Seq::empty(), fault: None }
}

impl Outcome {
    /// This outcome, stopped for the reason `f`.
    pub open spec fn stop(self, f: Fault) -> Outcome {
        Outcome { fault: Some(f), ..self }
    }

    /// This outcome in the state `g`.
    pub open spec fn at(self, g: GameView) -> Outcome {
        Outcome { game: g, ..self }
    }

    /// This outcome with the event `a` recorded last.
    pub open spec fn record(self, a: ActionView) -> Outcome {
        Outcome { actions: self.actions.push(a), ..self }
    }
}

/// A condition on cards, by which the entities of a game are searched.
#[derive(Clone, Copy, Debug, PartialEq, Eq, Structural)]
pub enum Selector {
    /// The card with this id.
    WithId(InstanceId),
    /// The cards of this player that are on the field.
    FieldOf(PlayerId),
    /// The cards in this player's hand.
    HandOf(PlayerId),
    /// The cards in this player's deck.
    DeckOf(PlayerId),
    /// The cards in this player's graveyard.
    GraveyardOf(PlayerId),
    /// The cards of this player, wherever they are.
    OwnedBy(PlayerId),
    /// The cards of either player that are on the field.
    OnField,
    /// The card of this player on this slot of the field.
    SlotOf(PlayerId, usize),
    /// The monsters of this player that may attack now: on an attack slot,
    /// awake, and with an attack left.
    Ready(PlayerId),
    /// The monsters in this player's hand.
    HandMonsterOf(PlayerId),
}

/// Whether a monster on `slot` shields its hero.
pub open spec fn is_defense_slot(slot: usize) -> bool {
    slot == 1 || slot == 2 || slot == 4 || slot == 5 || slot == 7
}

/// Whether a monster on `slot` may attack.
pub open spec fn is_attack_slot(slot: usize) -> bool {
    slot == 0 || slot == 2 || slot == 3 || slot == 5 || slot == 6
}

/// How often a monster may attack in one turn.
pub open spec fn attack_budget(m: MonsterView) -> usize {
    if has_keyword(m.keywords, Keyword::Windfury) {
        2
    } else {
        1
    }
}

impl Selector {
    /// Whether the card `c` meets this condition.
    pub open spec fn accepts(self, c: CardView) -> bool {
        match self {
            Selector::WithId(id) => c.id == id,
            Selector::FieldOf(p) => c.owner == p && c.location is Field,
            Selector::HandOf(p) => c.owner == p && c.location == Location::Hand,
            Selector::DeckOf(p) => c.owner == p && c.location == Location::Deck,
            Selector::GraveyardOf(p) => c.owner == p && c.location == Location::Graveyard,
            Selector::OwnedBy(p) => c.owner == p,
            Selector::OnField => c.location is Field,
            Selector::SlotOf(p, slot) => c.owner == p && c.location == Location::Field(slot),
            Selector::Ready(p) => c.owner == p && match c.location {
                Location::Field(slot) => is_attack_slot(slot) && match c.card_type {
                    CardTypeView::Monster(m) => !m.asleep && m.attack_count < attack_budget(m),
                    CardTypeView::Spell(_) => false,
                },
                _ => false,
            },
            Selector::HandMonsterOf(p) => c.owner == p && c.location == Location::Hand
                && c.card_type is Monster,
        }
    }
}

/// Whether `i` is the place of the first card of `es` that `sel` accepts.
pub open spec fn is_first(es: Seq<CardView>, sel: Selector, i: int) -> bool {
    &&& 0 <= i < es.len()
    &&& sel.accepts(es[i])
    &&& forall|j: int| 0 <= j < i ==> !sel.accepts(#[trigger] es[j])
}

/// Whether `sel` accepts some card of `es`.
pub open spec fn any_accepted(es: Seq<CardView>, sel: Selector) -> bool {
    exists|i: int| 0 <= i < es.len() && sel.accepts(#[trigger] es[i])
}

/// The place of the first card of `es` that `sel` accepts.
pub open spec fn first_accepted(es: Seq<CardView>, sel: Selector) -> Option<int> {
    if any_accepted(es, sel) {
        Some(choose|i: int| is_first(es, sel, i))
    } else {
        None
    }
}

/// The first place is unique, and `first_accepted` finds it.
pub proof fn lemma_first_accepted(es: Seq<CardView>, sel: Selector, i: int)
    requires
        is_first(es, sel, i),
    ensures
        first_accepted(es, sel) == Some(i),
{
    assert(sel.accepts(es[i]));
    let k = choose|k: int| is_first(es, sel, k);
    assert(is_first(es, sel, k));
    if k < i {
        assert(!sel.accepts(es[k]));
    }
    if i < k {
        assert(!sel.accepts(es[i]));
    }
}

/// What `first_accepted` finds is a first place.
pub proof fn lemma_first_accepted_is_first(es: Seq<CardView>, sel: Selector)
    requires
        first_accepted(es, sel) is Some,
    ensures
        is_first(es, sel, first_accepted(es, sel)->0),
{
    let w = choose|i: int| 0 <= i < es.len() && sel.accepts(#[trigger] es[i]);
    lemma_some_first(es, sel, w);
}

/// Below any accepted card there is a first one.
proof fn lemma_some_first(es: Seq<CardView>, sel: Selector, w: int)
    requires
        0 <= w < es.len(),
        sel.accepts(es[w]),
    ensures
        exists|i: int| is_first(es, sel, i),
    decreases w,
{
    if exists|j: int| 0 <= j < w && sel.accepts(#[trigger] es[j]) {
        let j = choose|j: int| 0 <= j < w && sel.accepts(#[trigger] es[j]);
        lemma_some_first(es, sel, j);
    } else {
        assert(is_first(es, sel, w));
    }
}

/// The ids of the cards of `es` that `sel` accepts, in order.
pub open spec fn select_ids(es: Seq<CardView>, sel: Selector) -> Seq<InstanceId>
    decreases es.len(),
{
    if es.len() == 0 {
        Seq::empty()
    } else if sel.accepts(es.last()) {
        select_ids(es.drop_last(), sel).push(es.last().id)
    } else {
        select_ids(es.drop_last(), sel)
    }
}

/// The cards of `es` that `sel` accepts, in order.
pub open spec fn select_cards(es: Seq<CardView>, sel: Selector) -> Seq<CardView>
    decreases es.len(),
{
    if es.len() == 0 {
        Seq::empty()
    } else if sel.accepts(es.last()) {
        select_cards(es.drop_last(), sel).push(es.last())
    } else {
        select_cards(es.drop_last(), sel)
    }
}

/// How many cards of `es` the condition `sel` accepts.
pub open spec fn count(es: Seq<CardView>, sel: Selector) -> nat {
    select_ids(es, sel).len()
}

/// Selecting from one card more: the new card comes last where it is accepted.
pub proof fn lemma_select_step(es: Seq<CardView>, sel: Selector, i: int)
    requires
        0 <= i < es.len(),
    ensures
        select_ids(es.take(i + 1), sel) == if sel.accepts(es[i]) {
            select_ids(es.take(i), sel).push(es[i].id)
        } else {
            select_ids(es.take(i), sel)
        },
        select_cards(es.take(i + 1), sel) == if sel.accepts(es[i]) {
            select_cards(es.take(i), sel).push(es[i])
        } else {
            select_cards(es.take(i), sel)
        },
{
    assert(es.take(i + 1).drop_last() =~= es.take(i));
    assert(es.take(i + 1).last() == es[i]);
}

/// As many ids are selected as cards, and never more than there are cards.
pub proof fn lemma_select_len(es: Seq<CardView>, sel: Selector)
    ensures
        select_ids(es, sel).len() == select_cards(es, sel).len(),
        select_ids(es, sel).len() <= es.len(),
        forall|k: int|
            0 <= k < select_cards(es, sel).len() ==> #[trigger] select_ids(es, sel)[k]
                == select_cards(es, sel)[k].id,
        forall|k: int|
            0 <= k < select_cards(es, sel).len() ==> sel.accepts(
                #[trigger] select_cards(es, sel)[k],
            ),
    decreases es.len(),
{
    if es.len() > 0 {
        lemma_select_len(es.drop_last(), sel);
    }
}

/// The place of the card `id` among `es`.
pub open spec fn entity_index(es: Seq<CardView>, id: InstanceId) -> Option<int> {
    first_accepted(es, Selector::WithId(id))
}

/// Whether `i` is the place of the first player of `ps` with the id `id`.
pub open spec fn is_player_at(ps: Seq<PlayerInstance>, id: PlayerId, i: int) -> bool {
    &&& 0 <= i < ps.len()
    &&& ps[i].player_id == id
    &&& forall|j: int| 0 <= j < i ==> (#[trigger] ps[j]).player_id != id
}

/// Whether some player of `ps` has the id `id`.
pub open spec fn has_player(ps: Seq<PlayerInstance>, id: PlayerId) -> bool {
    exists|i: int| 0 <= i < ps.len() && (#[trigger] ps[i]).player_id == id
}

/// The place of the player `id` among `ps`.
pub open spec fn player_index(ps: Seq<PlayerInstance>, id: PlayerId) -> Option<int> {
    if has_player(ps, id) {
        Some(choose|i: int| is_player_at(ps, id, i))
    } else {
        None
    }
}

/// The first place is unique, and `player_index` finds it.
pub proof fn lemma_player_index(ps: Seq<PlayerInstance>, id: PlayerId, i: int)
    requires
        is_player_at(ps, id, i),
    ensures
        player_index(ps, id) == Some(i),
{
    assert(ps[i].player_id == id);
    let k = choose|k: int| is_player_at(ps, id, k);
    assert(is_player_at(ps, id, k));
    if k < i {
        assert(ps[k].player_id != id);
    }
    if i < k {
        assert(ps[i].player_id != id);
    }
}

/// What `player_index` finds is a first place.
pub proof fn lemma_player_index_is_first(ps: Seq<PlayerInstance>, id: PlayerId)
    requires
        player_index(ps, id) is Some,
    ensures
        is_player_at(ps, id, player_index(ps, id)->0),
{
    let w = choose|i: int| 0 <= i < ps.len() && (#[trigger] ps[i]).player_id == id;
    lemma_some_player(ps, id, w);
}

proof fn lemma_some_player(ps: Seq<PlayerInstance>, id: PlayerId, w: int)
    requires
        0 <= w < ps.len(),
        ps[w].player_id == id,
    ensures
        exists|i: int| is_player_at(ps, id, i),
    decreases w,
{
    if exists|j: int| 0 <= j < w && (#[trigger] ps[j]).player_id == id {
        let j = choose|j: int| 0 <= j < w && (#[trigger] ps[j]).player_id == id;
        lemma_some_player(ps, id, j);
    } else {
        assert(is_player_at(ps, id, w));
    }
}

/// The ids of the players of `ps` other than `id`, in order.
pub open spec fn other_players(ps: Seq<PlayerInstance>, id: PlayerId) -> Seq<PlayerId>
    decreases ps.len(),
{
    if ps.len() == 0 {
        Seq::empty()
    } else if ps.last().player_id != id {
        other_players(ps.drop_last(), id).push(ps.last().player_id)
    } else {
        other_players(ps.drop_last(), id)
    }
}

/// The opponent of the player `id`: the one other player, where there is exactly one.
pub open spec fn opponent_of(ps: Seq<PlayerInstance>, id: PlayerId) -> Option<PlayerId> {
    let others = other_players(ps, id);
    if others.len() == 1 {
        Some(others[0])
    } else {
        None
    }
}

/// Whether an id names a player rather than a card.
pub open spec fn is_player(id: usize) -> bool {
    id < 2
}

impl CardView {
    /// This card at another place.
    pub open spec fn at(self, location: Location) -> CardView {
        CardView { location, ..self }
    }

    /// This card with the monster state `m`.
    pub open spec fn with_monster(self, m: MonsterView) -> CardView {
        CardView { card_type: CardTypeView::Monster(m), ..self }
    }

}

impl GameView {
    /// This state with the entity at place `i` replaced by `c`.
    pub open spec fn with_entity(self, i: int, c: CardView) -> GameView {
        GameView { entities: self.entities.update(i, c), ..self }
    }

    /// This state with `c` as one more entity, after the others.
    pub open spec fn with_new_entity(self, c: CardView) -> GameView {
        GameView { entities: self.entities.push(c), ..self }
    }

    /// This state with the player at place `i` replaced by `p`.
    pub open spec fn with_player(self, i: int, p: PlayerInstance) -> GameView {
        GameView { players: self.players.update(i, p), ..self }
    }

    /// This state with `e` added at the back of the queue.
    pub open spec fn enqueue(self, e: EffectView) -> GameView {
        GameView { effect_queue: self.effect_queue.push(e), ..self }
    }

    /// This state with `es` added at the back of the queue, in order.
    pub open spec fn enqueue_all(self, es: Seq<EffectView>) -> GameView {
        GameView { effect_queue: self.effect_queue + es, ..self }
    }
}

} // verus!
