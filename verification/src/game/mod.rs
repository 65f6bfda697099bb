//! The game: its state, the commands that players give, and the queries on it.

pub mod action;
pub mod card;
pub mod effects;
pub mod events;
pub mod laws;
pub mod logic;
pub mod model;
pub mod player;
pub mod types;
pub mod user_actions;
pub mod utils;
pub mod view;
use crate::collection::types::{templates_view, CardTemplate, CardTemplateView, TemplateId};
use crate::collection::Archetype;
use crate::error::{Fault, Result};
use crate::game::action::{actions_view, lemma_actions_add, lemma_actions_push, Action, ActionView};
use crate::game::card::{
    cards_view, contains_keyword, CardInstance, CardTypeInstance, CardTypeView, CardView, Keyword,
    MonsterView,
};
use crate::game::effects::{effects_view, Effect, EffectView, PlayerTarget, Target, TargetView};
use crate::game::logic::ops::is_player_id;
use crate::game::logic::summon::slot_taken;
use crate::game::logic::{carried_out, effect_outcome, execute_effect};
use crate::game::model::{
    entity_index, first_accepted, is_first, is_player, is_player_at, lemma_first_accepted,
    lemma_player_index, lemma_select_len, lemma_select_step, opponent_of, other_players,
    player_index, select_cards, select_ids, start, GameView, Outcome, Selector,
};
pub use crate::game::model::{attack_budget, is_attack_slot, is_defense_slot};
use crate::game::user_actions::play_monster::{play_monster, play_monster_outcome, selection_view};
use crate::game::user_actions::play_spell::{play_spell, play_spell_check, play_spell_result};
use crate::game::view::{public_view, PublicGameState};
use crate::ia::ai_moves_outcome;
use crate::UserDeck;
use crate::game::player::PlayerInstance;
use crate::game::types::{InstanceId, Location, PlayerId};
use std::collections::VecDeque;
use vstd::prelude::*;

verus! {

/// The slots from which a monster shields its hero.
pub const DEFENSE_POSITIONS: [usize; 5] = [1, 2, 4, 5, 7];

/// The slots from which a monster may attack.
pub const ATTACK_POSITIONS: [usize; 5] = [0, 2, 3, 5, 6];

/// One game between two players.
///
/// Entities and players are kept in the order in which they entered the game.
#[derive(Debug)]
pub struct Game {
    pub game_id: u128,
    pub player_id_a: usize,
    pub player_id_b: usize,
    pub entities: Vec<CardInstance>,
    pub effect_queue: VecDeque<Effect>,
    pub players: Vec<PlayerInstance>,
    pub turn: usize,
    pub current_player: PlayerId,
    pub winner_id: Option<PlayerId>,
    pub vs_ia: bool,
}

impl View for Game {
    type V = GameView;

    open spec fn view(&self) -> GameView {
        GameView {
            game_id: self.game_id,
            player_id_a: self.player_id_a,
            player_id_b: self.player_id_b,
            entities: cards_view(self.entities@),
            effect_queue: effects_view(self.effect_queue@),
            players: self.players@,
            turn: self.turn,
            current_player: self.current_player,
            winner_id: self.winner_id,
            vs_ia: self.vs_ia,
        }
    }
}

impl Selector {
    /// Whether `card` meets this condition.
    pub fn test(&self, card: &CardInstance) -> (b: bool)
        ensures
            b == self.accepts(card@),
    {
        match self {
            Selector::WithId(id) => card.id == *id,
            Selector::FieldOf(p) => card.owner == *p && matches!(card.location, Location::Field(_)),
            Selector::HandOf(p) => card.owner == *p && matches!(card.location, Location::Hand),
            Selector::DeckOf(p) => card.owner == *p && matches!(card.location, Location::Deck),
            Selector::GraveyardOf(p) => card.owner == *p && matches!(
                card.location,
                Location::Graveyard
            ),
            Selector::OwnedBy(p) => card.owner == *p,
            Selector::OnField => matches!(card.location, Location::Field(_)),
            Selector::SlotOf(p, slot) => card.owner == *p && match card.location {
                Location::Field(s) => s == *slot,
                _ => false,
            },
            Selector::Ready(p) => card.owner == *p && match card.location {
                Location::Field(s) => (s == 0 || s == 2 || s == 3 || s == 5 || s == 6)
                    && match &card.card_type {
                    CardTypeInstance::Monster(m) => !m.asleep && if contains_keyword(
                        &m.keywords,
                        Keyword::Windfury,
                    ) {
                        m.attack_count < 2
                    } else {
                        m.attack_count < 1
                    },
                    CardTypeInstance::Spell(_) => false,
                },
                _ => false,
            },
            Selector::HandMonsterOf(p) => card.owner == *p && matches!(
                card.location,
                Location::Hand
            ) && matches!(card.card_type, CardTypeInstance::Monster(_)),
        }
    }
}

impl Game {
    /// The place of the first entity that `sel` accepts.
    pub fn find_first(&self, sel: Selector) -> (r: Option<usize>)
        ensures
            match r {
                Some(i) => first_accepted(self@.entities, sel) == Some(i as int) && i
                    < self.entities.len(),
                None => first_accepted(self@.entities, sel) is None,
            },
    {
        let mut i: usize = 0;
        while i < self.entities.len()
            invariant
                i <= self.entities.len(),
                forall|j: int| 0 <= j < i ==> !sel.accepts(#[trigger] self@.entities[j]),
            decreases self.entities.len() - i,
        {
            if sel.test(&self.entities[i]) {
                proof {
                    assert(is_first(self@.entities, sel, i as int));
                    lemma_first_accepted(self@.entities, sel, i as int);
                }
                return Some(i);
            }
            i += 1;
        }
        None
    }

    /// The ids of the entities that `sel` accepts, in order.
    pub fn find_ids(&self, sel: Selector) -> (r: Vec<InstanceId>)
        ensures
            r@ == select_ids(self@.entities, sel),
    {
        let mut out: Vec<InstanceId> = Vec::new();
        let mut i: usize = 0;
        while i < self.entities.len()
            invariant
                i <= self.entities.len(),
                out@ == select_ids(self@.entities.take(i as int), sel),
            decreases self.entities.len() - i,
        {
            proof {
                lemma_select_step(self@.entities, sel, i as int);
            }
            if sel.test(&self.entities[i]) {
                out.push(self.entities[i].id);
            }
            i += 1;
        }
        assert(self@.entities.take(i as int) =~= self@.entities);
        out
    }

    /// The entities that `sel` accepts, in order.
    pub fn find_cards(&self, sel: Selector) -> (r: Vec<&CardInstance>)
        ensures
            r@.map_values(|c: &CardInstance| c@) == select_cards(self@.entities, sel),
    {
        let mut out: Vec<&CardInstance> = Vec::new();
        let mut i: usize = 0;
        while i < self.entities.len()
            invariant
                i <= self.entities.len(),
                out@.map_values(|c: &CardInstance| c@) == select_cards(
                    self@.entities.take(i as int),
                    sel,
                ),
            decreases self.entities.len() - i,
        {
            proof {
                lemma_select_step(self@.entities, sel, i as int);
            }
            if sel.test(&self.entities[i]) {
                let ghost before = out@;
                out.push(&self.entities[i]);
                assert(out@.map_values(|c: &CardInstance| c@) =~= before.map_values(
                    |c: &CardInstance| c@,
                ).push(self@.entities[i as int]));
            }
            i += 1;
        }
        assert(self@.entities.take(i as int) =~= self@.entities);
        out
    }

    /// The place of the player `player_id`.
    pub fn find_player(&self, player_id: PlayerId) -> (r: Option<usize>)
        ensures
            match r {
                Some(i) => player_index(self@.players, player_id) == Some(i as int) && i
                    < self.players.len(),
                None => player_index(self@.players, player_id) is None,
            },
    {
        let mut i: usize = 0;
        while i < self.players.len()
            invariant
                i <= self.players.len(),
                forall|j: int| 0 <= j < i ==> (#[trigger] self.players@[j]).player_id != player_id,
            decreases self.players.len() - i,
        {
            if self.players[i].player_id == player_id {
                proof {
                    assert(is_player_at(self@.players, player_id, i as int));
                    lemma_player_index(self@.players, player_id, i as int);
                }
                return Some(i);
            }
            i += 1;
        }
        None
    }

    /// The id of the one player other than `player_id`.
    pub fn opponent_id(&self, player_id: PlayerId) -> (r: Option<PlayerId>)
        ensures
            r == opponent_of(self@.players, player_id),
    {
        let mut found: Option<PlayerId> = None;
        let mut others: usize = 0;
        let mut i: usize = 0;
        while i < self.players.len()
            invariant
                i <= self.players.len(),
                others == other_players(self.players@.take(i as int), player_id).len(),
                others <= i,
                others > 0 ==> found == Some(
                    other_players(self.players@.take(i as int), player_id)[0],
                ),
            decreases self.players.len() - i,
        {
            proof {
                assert(self.players@.take(i + 1).drop_last() =~= self.players@.take(i as int));
            }
            if self.players[i].player_id != player_id {
                if others == 0 {
                    found = Some(self.players[i].player_id);
                }
                others += 1;
            }
            i += 1;
        }
        assert(self.players@.take(i as int) =~= self.players@);
        if others == 1 {
            found
        } else {
            None
        }
    }
}

impl Game {
    /// Moves the entity at place `idx` to `location`.
    pub(crate) fn set_location(&mut self, idx: usize, location: Location)
        requires
            idx < old(self).entities.len(),
        ensures
            final(self)@ == old(self)@.with_entity(
                idx as int,
                old(self)@.entities[idx as int].at(location),
            ),
            final(self).entities.len() == old(self).entities.len(),
            final(self).players == old(self).players,
    {
        self.entities[idx].location = location;
        assert(self@.entities =~= old(self)@.entities.update(
            idx as int,
            old(self)@.entities[idx as int].at(location),
        ));
    }

    /// Sets the numbers and the sleep of the monster at place `idx`.
    pub(crate) fn set_monster(
        &mut self,
        idx: usize,
        attack: usize,
        hp: usize,
        max_hp: usize,
        asleep: bool,
        attack_count: usize,
    )
        requires
            idx < old(self).entities.len(),
            old(self)@.entities[idx as int].card_type is Monster,
        ensures
            final(self)@ == old(self)@.with_entity(
                idx as int,
                old(self)@.entities[idx as int].with_monster(
                    (MonsterView {
                        attack,
                        hp,
                        max_hp,
                        asleep,
                        attack_count,
                        ..old(self)@.entities[idx as int].card_type->Monster_0
                    }),
                ),
            ),
            final(self).entities.len() == old(self).entities.len(),
            final(self).players == old(self).players,
    {
        match &mut self.entities[idx].card_type {
            CardTypeInstance::Monster(m) => {
                m.attack = attack;
                m.hp = hp;
                m.max_hp = max_hp;
                m.asleep = asleep;
                m.attack_count = attack_count;
            },
            CardTypeInstance::Spell(_) => {},
        }
        assert(self@.entities =~= old(self)@.entities.update(
            idx as int,
            old(self)@.entities[idx as int].with_monster(
                (MonsterView {
                    attack,
                    hp,
                    max_hp,
                    asleep,
                    attack_count,
                    ..old(self)@.entities[idx as int].card_type->Monster_0
                }),
            ),
        ));
    }

    /// Adds `card` as the last entity.
    pub fn add_entity(&mut self, card: CardInstance)
        ensures
            final(self)@ == old(self)@.with_new_entity(card@),
            final(self).entities.len() == old(self).entities.len() + 1,
            final(self).players == old(self).players,
    {
        self.entities.push(card);
        assert(self@.entities =~= old(self)@.entities.push(card@));
    }

    /// Replaces the player at place `idx` by `player`.
    pub(crate) fn set_player(&mut self, idx: usize, player: PlayerInstance)
        requires
            idx < old(self).players.len(),
        ensures
            final(self)@ == old(self)@.with_player(idx as int, player),
            final(self).entities == old(self).entities,
            final(self).players.len() == old(self).players.len(),
    {
        self.players[idx] = player;
    }

    /// Adds `effect` at the back of the queue.
    pub fn enqueue(&mut self, effect: Effect)
        ensures
            final(self)@ == old(self)@.enqueue(effect@),
            final(self).entities == old(self).entities,
            final(self).players == old(self).players,
    {
        self.effect_queue.push_back(effect);
        assert(self@.effect_queue =~= old(self)@.effect_queue.push(effect@));
    }

    /// Adds copies of `effects` at the back of the queue, in order.
    pub fn enqueue_copies(&mut self, effects: &Vec<Effect>)
        ensures
            final(self)@ == old(self)@.enqueue_all(effects_view(effects@)),
            final(self).entities == old(self).entities,
            final(self).players == old(self).players,
    {
        let mut i: usize = 0;
        while i < effects.len()
            invariant
                i <= effects.len(),
                self@ == old(self)@.enqueue_all(effects_view(effects@).take(i as int)),
                self.entities == old(self).entities,
                self.players == old(self).players,
            decreases effects.len() - i,
        {
            let ghost before = self@;
            self.enqueue(effects[i].clone());
            assert(self@.effect_queue =~= old(self)@.effect_queue + effects_view(effects@).take(
                i + 1,
            ));
            i += 1;
        }
        assert(effects_view(effects@).take(i as int) =~= effects_view(effects@));
    }
}

/// Adds `action` at the end of `actions`.
pub fn record(actions: &mut Vec<Action>, action: Action)
    ensures
        actions_view(final(actions)@) == actions_view(old(actions)@).push(action@),
{
    proof {
        lemma_actions_push(actions@, action);
    }
    actions.push(action);
}

/// The slots next to `position` on the board, in rising order.
pub open spec fn linked_positions(position: usize) -> Seq<usize> {
    if position == 0 {
        seq![1usize, 2usize]
    } else if position == 1 {
        seq![0usize, 2usize]
    } else if position == 2 {
        seq![0usize, 1usize, 3usize, 4usize]
    } else if position == 3 {
        seq![2usize, 4usize, 5usize]
    } else if position == 4 {
        seq![2usize, 3usize, 5usize]
    } else if position == 5 {
        seq![3usize, 4usize, 6usize, 7usize]
    } else if position == 6 {
        seq![5usize, 7usize]
    } else {
        seq![5usize, 6usize]
    }
}

/// Whether a monster may move from the slot `from` to the slot `to`.
pub open spec fn linked(from: usize, to: usize) -> bool {
    from < 8 && linked_positions(from).contains(to)
}

/// The slots next to `position` on the board.
pub fn get_linked_positions(position: usize) -> (r: Result<Vec<usize>>)
    ensures
        match r {
            Ok(v) => position < 8 && v@ == linked_positions(position),
            Err(e) => position >= 8 && e@ == Fault::InvalidStartingPosition.error_view(),
        },
{
    let mut v: Vec<usize> = Vec::new();
    if position == 0 {
        v.push(1);
        v.push(2);
    } else if position == 1 {
        v.push(0);
        v.push(2);
    } else if position == 2 {
        v.push(0);
        v.push(1);
        v.push(3);
        v.push(4);
    } else if position == 3 {
        v.push(2);
        v.push(4);
        v.push(5);
    } else if position == 4 {
        v.push(2);
        v.push(3);
        v.push(5);
    } else if position == 5 {
        v.push(3);
        v.push(4);
        v.push(6);
        v.push(7);
    } else if position == 6 {
        v.push(5);
        v.push(7);
    } else if position == 7 {
        v.push(5);
        v.push(6);
    } else {
        return Err(Fault::InvalidStartingPosition.to_error());
    }
    assert(v@ =~= linked_positions(position));
    Ok(v)
}

/// Whether `x` is among `v`.
pub fn contains_slot(v: &Vec<usize>, x: usize) -> (b: bool)
    ensures
        b == v@.contains(x),
{
    let mut i: usize = 0;
    while i < v.len()
        invariant
            i <= v.len(),
            forall|j: int| 0 <= j < i ==> v@[j] != x,
        decreases v.len() - i,
    {
        if v[i] == x {
            return true;
        }
        i += 1;
    }
    false
}

/// Whether the player `p` has a monster on a slot that shields the hero.
pub open spec fn has_defender(es: Seq<CardView>, p: PlayerId) -> bool {
    slot_taken(es, p, 1) || slot_taken(es, p, 2) || slot_taken(es, p, 4) || slot_taken(es, p, 5)
        || slot_taken(es, p, 7)
}

/// Why the attacker `a` may not aim at `target_id`, if anything forbids it.
///
/// A hero may be attacked only by the other side, and only while no monster
/// shields it. A monster may be attacked only by the other side.
pub open spec fn aim_check(g: GameView, a: CardView, target_id: InstanceId) -> Option<Fault> {
    if is_player(target_id) {
        if a.owner == target_id {
            Some(Fault::AttackOwnPlayer)
        } else if has_defender(g.entities, target_id) {
            Some(Fault::EnemyHasDefender)
        } else {
            None
        }
    } else {
        match entity_index(g.entities, target_id) {
            None => Some(Fault::TargetNotFound(target_id)),
            Some(j) => if g.entities[j].owner == a.owner {
                Some(Fault::AttackOwnMonster)
            } else {
                None
            },
        }
    }
}

/// Why the attacker `a` may not attack at all now, if anything forbids it.
pub open spec fn readiness_check(a: CardView) -> Option<Fault> {
    match a.location {
        Location::Field(slot) => if !is_attack_slot(slot) {
            Some(Fault::NotOnAttackSlot)
        } else {
            match a.card_type {
                CardTypeView::Spell(_) => Some(Fault::SpellCannotAttack),
                CardTypeView::Monster(m) => if m.asleep {
                    Some(Fault::AttackerAsleep)
                } else if m.attack_count >= attack_budget(m) {
                    Some(Fault::AlreadyAttacked)
                } else {
                    None
                },
            }
        },
        _ => Some(Fault::AttackerNotOnField),
    }
}

/// Why `player` may not attack `target_id` with `initiator_id`, if anything forbids it.
pub open spec fn attack_check(
    g: GameView,
    player: PlayerId,
    initiator_id: InstanceId,
    target_id: InstanceId,
) -> Option<Fault> {
    match entity_index(g.entities, initiator_id) {
        None => Some(Fault::AttackerNotFound(initiator_id)),
        Some(i) => {
            let a = g.entities[i];
            if a.owner != player {
                Some(Fault::NotYourAttacker)
            } else {
                match aim_check(g, a, target_id) {
                    Some(f) => Some(f),
                    None => readiness_check(a),
                }
            }
        },
    }
}

/// The state after the attack was declared: the attacker has used one attack,
/// and the attack itself waits at the back of the queue.
pub open spec fn attack_result(g: GameView, initiator_id: InstanceId, target_id: InstanceId) -> GameView {
    let i = entity_index(g.entities, initiator_id)->0;
    let a = g.entities[i];
    let m = a.card_type->Monster_0;
    g.enqueue(
        EffectView::Attack { initiator: initiator_id, target: TargetView::Id(target_id) },
    ).with_entity(
        i,
        a.with_monster(MonsterView { attack_count: (m.attack_count + 1) as usize, ..m }),
    )
}

/// What declaring the attack comes to. Where something forbids it, nothing changes.
pub open spec fn attack_outcome(
    g: GameView,
    player: PlayerId,
    initiator_id: InstanceId,
    target_id: InstanceId,
) -> Outcome {
    match attack_check(g, player, initiator_id, target_id) {
        Some(f) => start(g).stop(f),
        None => start(attack_result(g, initiator_id, target_id)),
    }
}

/// Why `player` may not move `card_id` to the slot `position`, if anything forbids it.
pub open spec fn move_check(
    g: GameView,
    player: PlayerId,
    card_id: InstanceId,
    position: usize,
) -> Option<Fault> {
    match entity_index(g.entities, card_id) {
        None => Some(Fault::CardNotFound(card_id)),
        Some(i) => {
            let c = g.entities[i];
            if c.owner != player {
                Some(Fault::NotYourMonster)
            } else {
                match c.location {
                    Location::Field(from) => if from >= 8 {
                        Some(Fault::InvalidStartingPosition)
                    } else if !linked(from, position) {
                        Some(Fault::InvalidDestination)
                    } else if slot_taken(g.entities, c.owner, position) {
                        Some(Fault::DestinationOccupied)
                    } else {
                        match player_index(g.players, player) {
                            None => Some(Fault::PlayerNotFound(player)),
                            Some(pi) => if g.players[pi].move_count == 0 {
                                Some(Fault::NoMoveLeft)
                            } else {
                                None
                            },
                        }
                    },
                    _ => Some(Fault::NotOnField),
                }
            }
        },
    }
}

/// The state after the move: the card stands on the new slot, and the player has one move less.
pub open spec fn move_result(
    g: GameView,
    player: PlayerId,
    card_id: InstanceId,
    position: usize,
) -> GameView {
    let i = entity_index(g.entities, card_id)->0;
    let pi = player_index(g.players, player)->0;
    let p = g.players[pi];
    g.with_player(pi, PlayerInstance { move_count: (p.move_count - 1) as usize, ..p }).with_entity(
        i,
        g.entities[i].at(Location::Field(position)),
    )
}

/// The most effects that one drain runs before it gives up.
pub const DRAIN_LIMIT: usize = usize::MAX;

impl GameView {
    /// This state without the first effect of the queue.
    pub open spec fn dequeued(self) -> GameView {
        GameView { effect_queue: self.effect_queue.drop_first(), ..self }
    }
}

/// `rest`, with the events `before` recorded ahead of its own.
pub open spec fn after_actions(before: Seq<ActionView>, rest: Outcome) -> Outcome {
    Outcome { game: rest.game, actions: before + rest.actions, fault: rest.fault }
}

/// What draining the queue of `g` comes to, with at most `fuel` effects run.
///
/// The first effect leaves the queue and runs; what it sets off goes to the
/// back; and so on until the queue is empty. A failing effect stops the drain
/// and leaves the rest of the queue as it is.
pub open spec fn drain(g: GameView, fuel: nat) -> Outcome
    decreases fuel,
{
    if g.effect_queue.len() == 0 {
        start(g)
    } else if fuel == 0 {
        start(g).stop(Fault::DrainLimit)
    } else {
        let o = effect_outcome(g.dequeued(), g.effect_queue[0]);
        if o.fault is Some {
            o
        } else {
            after_actions(o.actions, drain(o.game, (fuel - 1) as nat))
        }
    }
}

/// The card `c` as the turn of its owner `p` begins: a monster on the field
/// wakes up and may attack again.
pub open spec fn refreshed_card(c: CardView, p: PlayerId) -> CardView {
    if c.owner == p && c.location is Field {
        match c.card_type {
            CardTypeView::Monster(m) => c.with_monster(
                MonsterView { asleep: false, attack_count: 0, ..m },
            ),
            CardTypeView::Spell(_) => c,
        }
    } else {
        c
    }
}

/// Whether the player `p` has a spell lying on the field, which no rule allows.
pub open spec fn spell_on_field(es: Seq<CardView>, p: PlayerId) -> bool {
    exists|i: int|
        0 <= i < es.len() && (#[trigger] es[i]).owner == p && es[i].location is Field
            && es[i].card_type is Spell
}

/// The mana that the refresh at the start of a turn offers to a player with the base mana `base`.
pub open spec fn turn_refresh(base: usize) -> usize {
    if base < usize::MAX {
        (base + 1) as usize
    } else {
        base
    }
}

/// The state in which the turn after that of `ending_player` begins, before the
/// queue is drained: the other player is the current one, has three moves, and
/// every monster of theirs on the field is awake with no attack used. A draw, the
/// growth of the base mana while it is below ten, and the refresh of the mana
/// wait at the back of the queue, in this order.
pub open spec fn turn_start(g: GameView, ending_player: PlayerId) -> std::result::Result<
    GameView,
    Fault,
> {
    match opponent_of(g.players, ending_player) {
        None => Err(Fault::OpponentNotFound(ending_player)),
        Some(s) => match player_index(g.players, s) {
            None => Err(Fault::PlayerNotFound(s)),
            Some(pi) => if spell_on_field(g.entities, s) {
                Err(Fault::SpellOnField)
            } else {
                let p = g.players[pi];
                let q0 = g.effect_queue.push(EffectView::AutoDraw { player: s, amount: 1 });
                let q1 = if p.base_mana < 10 {
                    q0.push(
                        EffectView::IncreaseMaxMana {
                            initiator: s,
                            player: PlayerTarget::Player,
                            amount: 1,
                        },
                    )
                } else {
                    q0
                };
                let q2 = q1.push(
                    EffectView::RefreshMana {
                        initiator: s,
                        player: PlayerTarget::Player,
                        amount: turn_refresh(p.base_mana),
                    },
                );
                Ok(
                    GameView {
                        current_player: s,
                        effect_queue: q2,
                        players: g.players.update(pi, PlayerInstance { move_count: 3, ..p }),
                        entities: g.entities.map_values(|c: CardView| refreshed_card(c, s)),
                        ..g
                    },
                )
            },
        },
    }
}

/// `o`, and then `next`, which started from the state of `o`.
pub open spec fn and_then(o: Outcome, next: Outcome) -> Outcome {
    if o.fault is Some {
        o
    } else {
        after_actions(o.actions, next)
    }
}

/// Whether in the state `g` the turn belongs to the seat that the engine plays itself.
pub open spec fn ai_due(g: GameView) -> bool {
    g.vs_ia && g.current_player == g.player_id_b
}

/// What ending the turn of `ending_player` comes to: the next turn begins;
/// and where it belongs to the seat that the engine plays, the engine makes
/// its moves and the turn after that begins.
pub open spec fn end_turn_outcome(g: GameView, ending_player: PlayerId) -> Outcome {
    let o1 = begin_turn_outcome(g, ending_player);
    if o1.fault is None && ai_due(o1.game) {
        let o2 = and_then(o1, ai_moves_outcome(o1.game, o1.game.player_id_b));
        and_then(o2, begin_turn_outcome(o2.game, o2.game.player_id_b))
    } else {
        o1
    }
}

/// What beginning the turn after that of `ending_player` comes to: the turn is
/// announced and set up, and the queue is drained.
pub open spec fn begin_turn_outcome(g: GameView, ending_player: PlayerId) -> Outcome {
    match turn_start(g, ending_player) {
        Err(f) => start(g).stop(f),
        Ok(g1) => after_actions(
            seq![ActionView::StartTurn(opponent_of(g.players, ending_player)->0)],
            drain(g1, DRAIN_LIMIT as nat),
        ),
    }
}

/// The place of the first template of `collection` from `from` on that has the id `id`.
pub open spec fn template_at(collection: Seq<CardTemplateView>, id: TemplateId, from: int) -> Option<
    int,
>
    decreases collection.len() - from,
{
    if from < 0 || from >= collection.len() {
        None
    } else if collection[from].id == id {
        Some(from)
    } else {
        template_at(collection, id, from + 1)
    }
}

/// The cards that the deck `deck` gives to `owner`, numbered from `first_id` on:
/// one instance for each listed template id, in the order of the list.
pub open spec fn dealt(
    deck: Seq<TemplateId>,
    collection: Seq<CardTemplateView>,
    owner: PlayerId,
    opponent: PlayerId,
    first_id: int,
) -> std::result::Result<Seq<CardView>, Fault>
    decreases deck.len(),
{
    if deck.len() == 0 {
        Ok(Seq::empty())
    } else {
        match dealt(deck.drop_last(), collection, owner, opponent, first_id) {
            Err(f) => Err(f),
            Ok(cards) => match template_at(collection, deck.last(), 0) {
                None => Err(Fault::TemplateNotFound(deck.last())),
                Some(k) => Ok(
                    cards.push(
                        collection[k].instantiate(
                            (first_id + deck.len() - 1) as usize,
                            owner,
                            opponent,
                        ),
                    ),
                ),
            },
        }
    }
}

/// The cards with which a game opens: those of the first deck, then those of
/// the second, numbered from two on.
pub open spec fn opening_cards(
    deck_a: Seq<TemplateId>,
    deck_b: Seq<TemplateId>,
    collection_a: Seq<CardTemplateView>,
    collection_b: Seq<CardTemplateView>,
) -> std::result::Result<Seq<CardView>, Fault> {
    if 2 + deck_a.len() + deck_b.len() > usize::MAX {
        Err(Fault::NoFreshId)
    } else {
        match dealt(deck_a, collection_a, 0, 1, 2) {
            Err(f) => Err(f),
            Ok(a) => match dealt(deck_b, collection_b, 1, 0, 2 + deck_a.len() as int) {
                Err(f) => Err(f),
                Ok(b) => Ok(a + b),
            },
        }
    }
}

/// The state in which a game opens, but for its id: every card in its deck, both
/// players at full health, the first with one mana and the second with none,
/// and a draw of five cards for each waiting in the queue.
pub open spec fn opening(
    game_id: u128,
    cards: Seq<CardView>,
    archetype_a: Archetype,
    archetype_b: Archetype,
    vs_ia: bool,
) -> GameView {
    GameView {
        game_id,
        player_id_a: 0,
        player_id_b: 1,
        entities: cards,
        effect_queue: seq![
            EffectView::AutoDraw { player: 0, amount: 5 },
            EffectView::AutoDraw { player: 1, amount: 5 },
        ],
        players: seq![
            PlayerInstance {
                player_id: 0,
                hp: 30,
                mana: 1,
                base_mana: 1,
                move_count: 3,
                max_move: 3,
                archetype: archetype_a,
            },
            PlayerInstance {
                player_id: 1,
                hp: 30,
                mana: 0,
                base_mana: 0,
                move_count: 3,
                max_move: 3,
                archetype: archetype_b,
            },
        ],
        turn: 1,
        current_player: 0,
        winner_id: None,
        vs_ia,
    }
}

/// Finds the first template of `collection` with the id `id`.
pub fn find_template(collection: &Vec<CardTemplate>, id: TemplateId) -> (r: Option<usize>)
    ensures
        match r {
            Some(k) => template_at(templates_view(collection@), id, 0) == Some(k as int) && k
                < collection.len(),
            None => template_at(templates_view(collection@), id, 0) is None,
        },
{
    let mut k: usize = 0;
    while k < collection.len()
        invariant
            k <= collection.len(),
            template_at(templates_view(collection@), id, 0) == template_at(
                templates_view(collection@),
                id,
                k as int,
            ),
        decreases collection.len() - k,
    {
        assert(templates_view(collection@)[k as int] == collection@[k as int]@);
        if collection[k].id == id {
            return Some(k);
        }
        k += 1;
    }
    None
}

/// Whether `id` is the number of a random UUID: one with the version four and
/// the variant of RFC 9562 in their places.
pub open spec fn is_random_uuid(id: u128) -> bool {
    (id >> 76) & 0xf == 4 && (id >> 62) & 0x3 == 2
}

/// Draws a game id: a random UUID from `uuid::Uuid::new_v4`, as the 128-bit
/// number that `Uuid::as_u128` gives.
///
/// The bits of the number come from the random source of the operating system,
/// and nothing is claimed of them but the version and the variant, which
/// `new_v4` sets in every UUID that it makes. Where the operating system can
/// give no random bytes, `new_v4` panics.
#[verifier::external_body]
fn new_game_id() -> (id: u128)
    ensures
        is_random_uuid(id),
{
    uuid::Uuid::new_v4().as_u128()
}

/// Deals the cards of `deck` to `owner`, after the cards already in `entities`.
fn deal(
    entities: &mut Vec<CardInstance>,
    deck: &Vec<TemplateId>,
    collection: &Vec<CardTemplate>,
    owner: PlayerId,
    opponent: PlayerId,
    first_id: usize,
) -> (r: Result<()>)
    requires
        first_id + deck.len() <= usize::MAX,
    ensures
        match r {
            Ok(_) => dealt(deck@, templates_view(collection@), owner, opponent, first_id as int)
                is Ok && cards_view(final(entities)@) == cards_view(old(entities)@) + dealt(
                deck@,
                templates_view(collection@),
                owner,
                opponent,
                first_id as int,
            )->Ok_0,
            Err(e) => dealt(deck@, templates_view(collection@), owner, opponent, first_id as int)
                is Err && e@ == dealt(
                deck@,
                templates_view(collection@),
                owner,
                opponent,
                first_id as int,
            )->Err_0.error_view(),
        },
{
    let ghost col = templates_view(collection@);
    let mut done: Result<()> = Ok(());
    let mut k: usize = 0;
    while k < deck.len() && done.is_ok()
        invariant
            k <= deck.len(),
            first_id + deck.len() <= usize::MAX,
            col == templates_view(collection@),
            match done {
                Ok(_) => dealt(deck@.take(k as int), col, owner, opponent, first_id as int) is Ok
                    && cards_view(entities@) == cards_view(old(entities)@) + dealt(
                    deck@.take(k as int),
                    col,
                    owner,
                    opponent,
                    first_id as int,
                )->Ok_0,
                Err(e) => dealt(deck@, col, owner, opponent, first_id as int) is Err && e@
                    == dealt(deck@, col, owner, opponent, first_id as int)->Err_0.error_view(),
            },
        decreases deck.len() - k + (if done is Ok { 1int } else { 0int }),
    {
        proof {
            assert(deck@.take(k + 1).drop_last() =~= deck@.take(k as int));
            assert(deck@.take(k + 1).last() == deck@[k as int]);
        }
        match find_template(collection, deck[k]) {
            None => {
                proof {
                    lemma_dealt_fails(deck@, col, owner, opponent, first_id as int, k as int + 1);
                }
                done = Err(Fault::TemplateNotFound(deck[k]).to_error());
            },
            Some(t) => {
                assert(col[t as int] == collection@[t as int]@);
                let card = CardInstance::new(first_id + k, owner, &collection[t], opponent);
                let ghost before = entities@;
                entities.push(card);
                assert(cards_view(entities@) =~= cards_view(before).push(card@));
                assert(cards_view(entities@) =~= cards_view(old(entities)@) + dealt(
                    deck@.take(k as int + 1),
                    col,
                    owner,
                    opponent,
                    first_id as int,
                )->Ok_0);
                k += 1;
            },
        }
    }
    proof {
        if done is Ok {
            assert(deck@.take(k as int) =~= deck@);
        }
    }
    done
}

/// A deal that fails on a front part of the deck fails alike on the whole deck.
pub proof fn lemma_dealt_fails(
    deck: Seq<TemplateId>,
    collection: Seq<CardTemplateView>,
    owner: PlayerId,
    opponent: PlayerId,
    first_id: int,
    k: int,
)
    requires
        0 <= k <= deck.len(),
        dealt(deck.take(k), collection, owner, opponent, first_id) is Err,
    ensures
        dealt(deck, collection, owner, opponent, first_id) == dealt(
            deck.take(k),
            collection,
            owner,
            opponent,
            first_id,
        ),
    decreases deck.len() - k,
{
    if k == deck.len() {
        assert(deck.take(k) =~= deck);
    } else {
        assert(deck.drop_last().take(k) =~= deck.take(k));
        lemma_dealt_fails(deck.drop_last(), collection, owner, opponent, first_id, k);
    }
}

impl Game {
    /// Opens a game between the two decks. Each listed card is instantiated from
    /// the template of that id in the player's collection.
    pub fn new(
        deck_a: UserDeck,
        deck_b: UserDeck,
        collection_a: Vec<CardTemplate>,
        collection_b: Vec<CardTemplate>,
        vs_ia: bool,
    ) -> (r: Result<Self>)
        ensures
            match r {
                Ok(game) => is_random_uuid(game.game_id) && opening_cards(
                    deck_a.cards@,
                    deck_b.cards@,
                    templates_view(collection_a@),
                    templates_view(collection_b@),
                ) is Ok && game@ == opening(
                    game.game_id,
                    opening_cards(
                        deck_a.cards@,
                        deck_b.cards@,
                        templates_view(collection_a@),
                        templates_view(collection_b@),
                    )->Ok_0,
                    deck_a.archetype,
                    deck_b.archetype,
                    vs_ia,
                ),
                Err(e) => opening_cards(
                    deck_a.cards@,
                    deck_b.cards@,
                    templates_view(collection_a@),
                    templates_view(collection_b@),
                ) is Err && e@ == opening_cards(
                    deck_a.cards@,
                    deck_b.cards@,
                    templates_view(collection_a@),
                    templates_view(collection_b@),
                )->Err_0.error_view(),
            },
    {
        let player_id_a: usize = 0;
        let player_id_b: usize = 1;
        let first_b = match deck_a.cards.len().checked_add(2) {
            None => {
                return Err(Fault::NoFreshId.to_error());
            },
            Some(n) => n,
        };
        if first_b.checked_add(deck_b.cards.len()).is_none() {
            return Err(Fault::NoFreshId.to_error());
        }
        let mut players: Vec<PlayerInstance> = Vec::new();
        players.push(PlayerInstance::new(player_id_a, 1, deck_a.archetype));
        players.push(PlayerInstance::new(player_id_b, 0, deck_b.archetype));

        let mut entities: Vec<CardInstance> = Vec::new();
        assert(cards_view(entities@) =~= Seq::<CardView>::empty());
        match deal(&mut entities, &deck_a.cards, &collection_a, player_id_a, player_id_b, 2) {
            Err(e) => {
                return Err(e);
            },
            Ok(()) => {},
        }
        match deal(&mut entities, &deck_b.cards, &collection_b, player_id_b, player_id_a, first_b) {
            Err(e) => {
                return Err(e);
            },
            Ok(()) => {},
        }
        let mut queue: VecDeque<Effect> = VecDeque::new();
        queue.push_back(Effect::AutoDraw { player: player_id_a, amount: 5 });
        queue.push_back(Effect::AutoDraw { player: player_id_b, amount: 5 });
        let game = Game {
            game_id: new_game_id(),
            player_id_a,
            player_id_b,
            effect_queue: queue,
            players,
            entities,
            turn: 1,
            current_player: player_id_a,
            winner_id: None,
            vs_ia,
        };
        proof {
            let cards = opening_cards(
                deck_a.cards@,
                deck_b.cards@,
                templates_view(collection_a@),
                templates_view(collection_b@),
            )->Ok_0;
            let want = opening(game.game_id, cards, deck_a.archetype, deck_b.archetype, vs_ia);
            assert(game@.entities =~= want.entities);
            assert(game@.effect_queue =~= want.effect_queue);
            assert(game@.players =~= want.players);
        }
        Ok(game)
    }

    /// Takes the first effect out of the queue.
    pub fn dequeue(&mut self) -> (r: Option<Effect>)
        ensures
            match r {
                Some(e) => old(self)@.effect_queue.len() > 0 && e@ == old(self)@.effect_queue[0]
                    && final(self)@ == old(self)@.dequeued(),
                None => old(self)@.effect_queue.len() == 0 && final(self)@ == old(self)@,
            },
    {
        let r = self.effect_queue.pop_front();
        proof {
            if r is Some {
                assert(self@.effect_queue =~= old(self)@.effect_queue.drop_first());
            }
        }
        r
    }

    /// Runs the queue dry, and reports everything that happened on the way, in order.
    pub fn compute_commands(&mut self) -> (r: Result<Vec<Action>>)
        ensures
            carried_out(final(self)@, r, drain(old(self)@, DRAIN_LIMIT as nat)),
    {
        let ghost g0 = self@;
        let mut all_actions: Vec<Action> = Vec::new();
        assert(actions_view(all_actions@) =~= Seq::<ActionView>::empty());
        let mut done: Result<()> = Ok(());
        let mut running = true;
        let mut fuel: usize = DRAIN_LIMIT;
        assert(drain(g0, DRAIN_LIMIT as nat) == after_actions(
            actions_view(all_actions@),
            drain(self@, fuel as nat),
        )) by {
            assert(actions_view(all_actions@) + drain(g0, fuel as nat).actions =~= drain(
                g0,
                fuel as nat,
            ).actions);
        }
        while running && done.is_ok()
            invariant
                match done {
                    Ok(_) => drain(g0, DRAIN_LIMIT as nat) == after_actions(
                        actions_view(all_actions@),
                        drain(self@, fuel as nat),
                    ) && (!running ==> self@.effect_queue.len() == 0),
                    Err(e) => drain(g0, DRAIN_LIMIT as nat).game == self@ && drain(
                        g0,
                        DRAIN_LIMIT as nat,
                    ).fault is Some && e@ == drain(g0, DRAIN_LIMIT as nat).fault->0.error_view(),
                },
            decreases fuel + (if running && done is Ok { 1int } else { 0int }),
        {
            if self.effect_queue.len() == 0 {
                running = false;
            } else if fuel == 0 {
                done = Err(Fault::DrainLimit.to_error());
            } else {
                let ghost before = self@;
                let ghost acc = actions_view(all_actions@);
                let effect = self.dequeue();
                match effect {
                    None => {
                        running = false;
                    },
                    Some(effect) => {
                        fuel -= 1;
                        match execute_effect(&effect, self) {
                            Err(e) => {
                                done = Err(e);
                            },
                            Ok(mut performed) => {
                                proof {
                                    lemma_actions_add(all_actions@, performed@);
                                    let o = effect_outcome(
                                        before.dequeued(),
                                        before.effect_queue[0],
                                    );
                                    let rest = drain(o.game, fuel as nat);
                                    assert((acc + o.actions) + rest.actions =~= acc + (o.actions
                                        + rest.actions));
                                }
                                all_actions.append(&mut performed);
                            },
                        }
                    },
                }
            }
        }
        match done {
            Err(e) => Err(e),
            Ok(()) => {
                proof {
                    assert(actions_view(all_actions@) + Seq::<ActionView>::empty() =~= actions_view(
                        all_actions@,
                    ));
                }
                Ok(all_actions)
            },
        }
    }

    /// Whether the player `p` has a monster on a slot that shields the hero.
    pub fn defended(&self, p: PlayerId) -> (b: bool)
        ensures
            b == has_defender(self@.entities, p),
    {
        self.find_first(Selector::SlotOf(p, 1)).is_some() || self.find_first(
            Selector::SlotOf(p, 2),
        ).is_some() || self.find_first(Selector::SlotOf(p, 4)).is_some() || self.find_first(
            Selector::SlotOf(p, 5),
        ).is_some() || self.find_first(Selector::SlotOf(p, 7)).is_some()
    }

    /// Declares the attack of `initiator_id` on `target_id`, a hero or a monster.
    ///
    /// Where something forbids the attack, nothing changes.
    pub fn attack(&mut self, player: PlayerId, initiator_id: InstanceId, target_id: InstanceId) -> (r:
        Result<()>)
        ensures
            match r {
                Ok(_) => attack_check(old(self)@, player, initiator_id, target_id) is None
                    && final(self)@ == attack_result(old(self)@, initiator_id, target_id),
                Err(e) => attack_check(old(self)@, player, initiator_id, target_id) is Some && e@
                    == attack_check(old(self)@, player, initiator_id, target_id)->0.error_view()
                    && final(self)@ == old(self)@,
            },
    {
        let i = match self.find_first(Selector::WithId(initiator_id)) {
            None => {
                return Err(Fault::AttackerNotFound(initiator_id).to_error());
            },
            Some(i) => i,
        };
        assert(self@.entities[i as int] == self.entities@[i as int]@);
        let owner = self.entities[i].owner;
        if owner != player {
            return Err(Fault::NotYourAttacker.to_error());
        }
        if is_player_id(target_id) {
            if owner == target_id {
                return Err(Fault::AttackOwnPlayer.to_error());
            }
            if self.defended(target_id) {
                return Err(Fault::EnemyHasDefender.to_error());
            }
        } else {
            match self.find_first(Selector::WithId(target_id)) {
                None => {
                    return Err(Fault::TargetNotFound(target_id).to_error());
                },
                Some(j) => {
                    assert(self@.entities[j as int] == self.entities@[j as int]@);
                    if self.entities[j].owner == owner {
                        return Err(Fault::AttackOwnMonster.to_error());
                    }
                },
            }
        }
        match self.entities[i].location {
            Location::Field(pos) => {
                if !(pos == 0 || pos == 2 || pos == 3 || pos == 5 || pos == 6) {
                    return Err(Fault::NotOnAttackSlot.to_error());
                }
            },
            _ => {
                return Err(Fault::AttackerNotOnField.to_error());
            },
        }
        let (attack, hp, max_hp, asleep, attack_count) = match &self.entities[i].card_type {
            CardTypeInstance::Spell(_) => {
                return Err(Fault::SpellCannotAttack.to_error());
            },
            CardTypeInstance::Monster(m) => {
                if m.asleep {
                    return Err(Fault::AttackerAsleep.to_error());
                }
                if contains_keyword(&m.keywords, Keyword::Windfury) {
                    if m.attack_count > 1 {
                        return Err(Fault::AlreadyAttacked.to_error());
                    }
                } else if m.attack_count > 0 {
                    return Err(Fault::AlreadyAttacked.to_error());
                }
                (m.attack, m.hp, m.max_hp, m.asleep, m.attack_count)
            },
        };
        self.enqueue(Effect::Attack { initiator: initiator_id, target: Target::Id(target_id) });
        self.set_monster(i, attack, hp, max_hp, asleep, attack_count + 1);
        Ok(())
    }

    /// Moves the monster `card_id` of `player` to the slot `position` next to it.
    ///
    /// Where something forbids the move, nothing changes.
    pub fn move_card(&mut self, player: PlayerId, card_id: InstanceId, position: usize) -> (r:
        Result<()>)
        ensures
            match r {
                Ok(_) => move_check(old(self)@, player, card_id, position) is None && final(self)@
                    == move_result(old(self)@, player, card_id, position),
                Err(e) => move_check(old(self)@, player, card_id, position) is Some && e@
                    == move_check(old(self)@, player, card_id, position)->0.error_view()
                    && final(self)@ == old(self)@,
            },
    {
        let i = match self.find_first(Selector::WithId(card_id)) {
            None => {
                return Err(Fault::CardNotFound(card_id).to_error());
            },
            Some(i) => i,
        };
        assert(self@.entities[i as int] == self.entities@[i as int]@);
        let owner = self.entities[i].owner;
        if owner != player {
            return Err(Fault::NotYourMonster.to_error());
        }
        let starting_position = match self.entities[i].location {
            Location::Field(pos) => pos,
            _ => {
                return Err(Fault::NotOnField.to_error());
            },
        };
        let links = match get_linked_positions(starting_position) {
            Err(e) => {
                return Err(e);
            },
            Ok(links) => links,
        };
        if !contains_slot(&links, position) {
            return Err(Fault::InvalidDestination.to_error());
        }
        if self.find_first(Selector::SlotOf(owner, position)).is_some() {
            return Err(Fault::DestinationOccupied.to_error());
        }
        let pi = match self.find_player(player) {
            None => {
                return Err(Fault::PlayerNotFound(player).to_error());
            },
            Some(pi) => pi,
        };
        let p = self.players[pi];
        if p.move_count == 0 {
            return Err(Fault::NoMoveLeft.to_error());
        }
        self.set_player(
            pi,
            PlayerInstance {
                player_id: p.player_id,
                hp: p.hp,
                mana: p.mana,
                base_mana: p.base_mana,
                move_count: p.move_count - 1,
                max_move: p.max_move,
                archetype: p.archetype,
            },
        );
        self.set_location(i, Location::Field(position));
        Ok(())
    }

    /// Casts the spell `card_id` of the hand of `owner`. See [`play_spell`].
    pub fn play_spell(
        &mut self,
        owner: PlayerId,
        card_id: usize,
        selected_targets: Option<Vec<InstanceId>>,
    ) -> (r: Result<()>)
        ensures
            match r {
                Ok(_) => play_spell_check(
                    old(self)@,
                    owner,
                    card_id,
                    selection_view(selected_targets),
                ) is None && final(self)@ == play_spell_result(
                    old(self)@,
                    owner,
                    card_id,
                    selection_view(selected_targets),
                ),
                Err(e) => play_spell_check(
                    old(self)@,
                    owner,
                    card_id,
                    selection_view(selected_targets),
                ) is Some && e@ == play_spell_check(
                    old(self)@,
                    owner,
                    card_id,
                    selection_view(selected_targets),
                )->0.error_view() && final(self)@ == old(self)@,
            },
    {
        play_spell(self, owner, card_id, selected_targets)
    }

    /// Plays the monster `card_id` of the hand of `owner` on the slot `position`.
    /// See [`play_monster`].
    pub fn play_monster(
        &mut self,
        owner: PlayerId,
        card_id: InstanceId,
        position: usize,
        selected_targets: Option<Vec<InstanceId>>,
    ) -> (r: Result<Vec<Action>>)
        ensures
            carried_out(
                final(self)@,
                r,
                play_monster_outcome(
                    old(self)@,
                    owner,
                    card_id,
                    position,
                    selection_view(selected_targets),
                ),
            ),
    {
        play_monster(self, owner, card_id, position, selected_targets)
    }

    /// Whether the player `p` has a spell lying on the field.
    pub fn has_spell_on_field(&self, p: PlayerId) -> (b: bool)
        ensures
            b == spell_on_field(self@.entities, p),
    {
        let mut i: usize = 0;
        while i < self.entities.len()
            invariant
                i <= self.entities.len(),
                forall|j: int|
                    0 <= j < i ==> !((#[trigger] self@.entities[j]).owner == p
                        && self@.entities[j].location is Field
                        && self@.entities[j].card_type is Spell),
            decreases self.entities.len() - i,
        {
            assert(self@.entities[i as int] == self.entities@[i as int]@);
            let c = &self.entities[i];
            if c.owner == p && matches!(c.location, Location::Field(_)) && matches!(
                c.card_type,
                CardTypeInstance::Spell(_)
            ) {
                return true;
            }
            i += 1;
        }
        false
    }

    /// Wakes every monster of `p` on the field and gives it its attacks back.
    fn refresh_field(&mut self, p: PlayerId)
        ensures
            final(self)@ == (GameView {
                entities: old(self)@.entities.map_values(|c: CardView| refreshed_card(c, p)),
                ..old(self)@
            }),
    {
        let ghost es = self@.entities;
        let mut i: usize = 0;
        assert(self@.entities =~= Seq::new(
            es.len(),
            |j: int|
                if j < i {
                    refreshed_card(es[j], p)
                } else {
                    es[j]
                },
        ));
        while i < self.entities.len()
            invariant
                i <= self.entities.len(),
                self.entities.len() == old(self).entities.len(),
                es == old(self)@.entities,
                self@ == (GameView {
                    entities: Seq::new(
                        es.len(),
                        |j: int|
                            if j < i {
                                refreshed_card(es[j], p)
                            } else {
                                es[j]
                            },
                    ),
                    ..old(self)@
                }),
            decreases self.entities.len() - i,
        {
            assert(self@.entities[i as int] == self.entities@[i as int]@);
            let ghost before = self@;
            let c = &self.entities[i];
            if c.owner == p && matches!(c.location, Location::Field(_)) {
                let stats = match &c.card_type {
                    CardTypeInstance::Monster(m) => Some((m.attack, m.hp, m.max_hp)),
                    CardTypeInstance::Spell(_) => None,
                };
                if let Some((attack, hp, max_hp)) = stats {
                    self.set_monster(i, attack, hp, max_hp, false, 0);
                }
            }
            i += 1;
            assert(self@.entities =~= Seq::new(
                es.len(),
                |j: int|
                    if j < i {
                        refreshed_card(es[j], p)
                    } else {
                        es[j]
                    },
            ));
        }
        assert(self@.entities =~= old(self)@.entities.map_values(
            |c: CardView| refreshed_card(c, p),
        ));
    }

    /// Ends the turn of `ending_player`. The other player becomes the current
    /// one and their turn begins. Where that player is the seat that the engine
    /// plays, the engine makes its moves at once and ends its turn in turn.
    ///
    /// Where the turn cannot begin, nothing changes. A failure later on leaves
    /// the state where it happened.
    pub fn end_turn(&mut self, ending_player: PlayerId) -> (r: Result<Vec<Action>>)
        ensures
            carried_out(final(self)@, r, end_turn_outcome(old(self)@, ending_player)),
    {
        let mut actions = match self.begin_turn(ending_player) {
            Err(e) => {
                return Err(e);
            },
            Ok(actions) => actions,
        };
        if self.ai_turn_due() {
            let seat = self.player_id_b;
            let mut ia_actions = match crate::ia::ai_moves(self, seat) {
                Err(e) => {
                    return Err(e);
                },
                Ok(a) => a,
            };
            proof {
                lemma_actions_add(actions@, ia_actions@);
            }
            actions.append(&mut ia_actions);
            let ghost o2 = and_then(
                begin_turn_outcome(old(self)@, ending_player),
                ai_moves_outcome(
                    begin_turn_outcome(old(self)@, ending_player).game,
                    begin_turn_outcome(old(self)@, ending_player).game.player_id_b,
                ),
            );
            assert(self@ == o2.game);
            let seat = self.player_id_b;
            let mut last = match self.begin_turn(seat) {
                Err(e) => {
                    return Err(e);
                },
                Ok(a) => a,
            };
            proof {
                lemma_actions_add(actions@, last@);
            }
            actions.append(&mut last);
        }
        Ok(actions)
    }

    /// Begins the turn after that of `ending_player`: the other player becomes
    /// the current one, their turn is set up, and the queue is drained.
    ///
    /// Where the turn cannot begin, nothing changes. A failure during the drain
    /// leaves the state where the drain stopped.
    pub fn begin_turn(&mut self, ending_player: PlayerId) -> (r: Result<Vec<Action>>)
        ensures
            carried_out(final(self)@, r, begin_turn_outcome(old(self)@, ending_player)),
    {
        let starting_player = match self.opponent_id(ending_player) {
            None => {
                return Err(Fault::OpponentNotFound(ending_player).to_error());
            },
            Some(s) => s,
        };
        let pi = match self.find_player(starting_player) {
            None => {
                return Err(Fault::PlayerNotFound(starting_player).to_error());
            },
            Some(pi) => pi,
        };
        if self.has_spell_on_field(starting_player) {
            return Err(Fault::SpellOnField.to_error());
        }
        let mut actions: Vec<Action> = Vec::new();
        record(&mut actions, Action::StartTurn(starting_player));
        self.current_player = starting_player;
        self.enqueue(Effect::AutoDraw { player: starting_player, amount: 1 });
        let p = self.players[pi];
        if p.base_mana < 10 {
            self.enqueue(
                Effect::IncreaseMaxMana {
                    initiator: starting_player,
                    player: PlayerTarget::Player,
                    amount: 1,
                },
            );
        }
        let amount = if p.base_mana < usize::MAX {
            p.base_mana + 1
        } else {
            p.base_mana
        };
        self.enqueue(
            Effect::RefreshMana {
                initiator: starting_player,
                player: PlayerTarget::Player,
                amount,
            },
        );
        self.set_player(
            pi,
            PlayerInstance {
                player_id: p.player_id,
                hp: p.hp,
                mana: p.mana,
                base_mana: p.base_mana,
                move_count: 3,
                max_move: p.max_move,
                archetype: p.archetype,
            },
        );
        self.refresh_field(starting_player);
        assert(self@ == turn_start(old(self)@, ending_player)->Ok_0);
        match self.compute_commands() {
            Err(e) => Err(e),
            Ok(mut reset_turn_actions) => {
                proof {
                    lemma_actions_add(actions@, reset_turn_actions@);
                    assert(actions_view(actions@) =~= seq![
                        ActionView::StartTurn(starting_player),
                    ]);
                }
                actions.append(&mut reset_turn_actions);
                Ok(actions)
            },
        }
    }

    /// Whether the turn now belongs to the seat that the engine plays itself.
    pub fn ai_turn_due(&self) -> (b: bool)
        ensures
            b == ai_due(self@),
    {
        self.vs_ia && self.current_player == self.player_id_b
    }

    /// The player other than `player_id`.
    pub fn get_opponent(&self, player_id: &PlayerId) -> (r: Result<&PlayerInstance>)
        ensures
            match r {
                Ok(p) => opponent_of(self@.players, *player_id) is Some && player_index(
                    self@.players,
                    opponent_of(self@.players, *player_id)->0,
                ) is Some && *p == self@.players[player_index(
                    self@.players,
                    opponent_of(self@.players, *player_id)->0,
                )->0],
                Err(e) => e@ == Fault::OpponentNotFound(*player_id).error_view() && (opponent_of(
                    self@.players,
                    *player_id,
                ) is None || player_index(
                    self@.players,
                    opponent_of(self@.players, *player_id)->0,
                ) is None),
            },
    {
        match self.opponent_id(*player_id) {
            None => Err(Fault::OpponentNotFound(*player_id).to_error()),
            Some(q) => match self.find_player(q) {
                None => Err(Fault::OpponentNotFound(*player_id).to_error()),
                Some(i) => Ok(&self.players[i]),
            },
        }
    }

    /// The player `player_id`.
    pub fn get_player(&self, player_id: PlayerId) -> (r: Result<&PlayerInstance>)
        ensures
            match r {
                Ok(p) => player_index(self@.players, player_id) is Some && *p
                    == self@.players[player_index(self@.players, player_id)->0],
                Err(e) => player_index(self@.players, player_id) is None && e@
                    == Fault::PlayerNotFound(player_id).error_view(),
            },
    {
        match self.find_player(player_id) {
            None => Err(Fault::PlayerNotFound(player_id).to_error()),
            Some(i) => Ok(&self.players[i]),
        }
    }

    /// The player `player_id`, to be changed in place.
    pub fn get_mut_player(&mut self, player_id: PlayerId) -> (r: Result<&mut PlayerInstance>)
        ensures
            match r {
                Ok(p) => player_index(old(self)@.players, player_id) is Some && *p
                    == old(self)@.players[player_index(old(self)@.players, player_id)->0]
                    && final(self)@ == old(self)@.with_player(
                    player_index(old(self)@.players, player_id)->0,
                    *final(p),
                ),
                Err(e) => player_index(old(self)@.players, player_id) is None && e@
                    == Fault::PlayerNotFound(player_id).error_view() && final(self)@ == old(self)@,
            },
    {
        match self.find_player(player_id) {
            None => Err(Fault::PlayerNotFound(player_id).to_error()),
            Some(i) => Ok(&mut self.players[i]),
        }
    }

    /// The entity `entity_id`, to be changed in place.
    pub fn get_mut_entity(&mut self, entity_id: InstanceId) -> (r: Result<&mut CardInstance>)
        ensures
            match r {
                Ok(c) => entity_index(old(self)@.entities, entity_id) is Some && c@
                    == old(self)@.entities[entity_index(old(self)@.entities, entity_id)->0]
                    && final(self)@ == old(self)@.with_entity(
                    entity_index(old(self)@.entities, entity_id)->0,
                    final(c)@,
                ),
                Err(e) => entity_index(old(self)@.entities, entity_id) is None && e@
                    == Fault::CardNotFound(entity_id).error_view() && final(self)@ == old(self)@,
            },
    {
        match self.find_first(Selector::WithId(entity_id)) {
            None => Err(Fault::CardNotFound(entity_id).to_error()),
            Some(i) => {
                assert(self@.entities[i as int] == self.entities@[i as int]@);
                let ghost before = self.entities@;
                let c = &mut self.entities[i];
                proof {
                    assert(forall|x: CardInstance|
                        cards_view(before.update(i as int, x)) =~= cards_view(before).update(
                            i as int,
                            x@,
                        ));
                }
                Ok(c)
            },
        }
    }

    /// The entity `entity_id`.
    pub fn get_entity(&self, entity_id: InstanceId) -> (r: Result<&CardInstance>)
        ensures
            match r {
                Ok(c) => entity_index(self@.entities, entity_id) is Some && c@
                    == self@.entities[entity_index(self@.entities, entity_id)->0],
                Err(e) => entity_index(self@.entities, entity_id) is None && e@
                    == Fault::CardNotFound(entity_id).error_view(),
            },
    {
        match self.find_first(Selector::WithId(entity_id)) {
            None => Err(Fault::CardNotFound(entity_id).to_error()),
            Some(i) => {
                assert(self@.entities[i as int] == self.entities@[i as int]@);
                Ok(&self.entities[i])
            },
        }
    }

    /// The cards of `player_id` on the field, in order.
    pub fn get_field(&self, player_id: PlayerId) -> (r: Vec<&CardInstance>)
        ensures
            r@.map_values(|c: &CardInstance| c@) == select_cards(
                self@.entities,
                Selector::FieldOf(player_id),
            ),
    {
        self.find_cards(Selector::FieldOf(player_id))
    }

    /// The cards in the hand of `player_id`, in order.
    pub fn get_hand(&self, player_id: PlayerId) -> (r: Vec<&CardInstance>)
        ensures
            r@.map_values(|c: &CardInstance| c@) == select_cards(
                self@.entities,
                Selector::HandOf(player_id),
            ),
    {
        self.find_cards(Selector::HandOf(player_id))
    }

    /// The cards of `player_id` on the field, in order, each with its slot.
    pub fn get_field_with_position(&self, player_id: PlayerId) -> (r: Vec<(usize, &CardInstance)>)
        ensures
            r@.map_values(|e: (usize, &CardInstance)| e.1@) == select_cards(
                self@.entities,
                Selector::FieldOf(player_id),
            ),
            forall|k: int|
                0 <= k < r@.len() ==> (#[trigger] r@[k]).1.location == Location::Field(r@[k].0),
    {
        let cards = self.find_cards(Selector::FieldOf(player_id));
        let mut out: Vec<(usize, &CardInstance)> = Vec::new();
        let mut k: usize = 0;
        proof {
            lemma_select_len(self@.entities, Selector::FieldOf(player_id));
        }
        while k < cards.len()
            invariant
                k <= cards.len(),
                out.len() == k,
                cards@.map_values(|c: &CardInstance| c@) == select_cards(
                    self@.entities,
                    Selector::FieldOf(player_id),
                ),
                forall|j: int|
                    0 <= j < select_cards(self@.entities, Selector::FieldOf(player_id)).len()
                        ==> Selector::FieldOf(player_id).accepts(
                        #[trigger] select_cards(self@.entities, Selector::FieldOf(player_id))[j],
                    ),
                forall|j: int| 0 <= j < k ==> (#[trigger] out@[j]).1 == cards@[j],
                forall|j: int|
                    0 <= j < k ==> (#[trigger] out@[j]).1.location == Location::Field(out@[j].0),
            decreases cards.len() - k,
        {
            let c = cards[k];
            assert(cards@.map_values(|c: &CardInstance| c@)[k as int] == c@);
            match c.location {
                Location::Field(slot) => {
                    out.push((slot, c));
                },
                _ => {
                    assert(false);
                },
            }
            k += 1;
        }
        assert(out@.map_values(|e: (usize, &CardInstance)| e.1@) =~= cards@.map_values(
            |c: &CardInstance| c@,
        ));
        out
    }
}

/// A command of a player, as a value.
pub ghost enum Command {
    PlayMonster {
        owner: PlayerId,
        card_id: InstanceId,
        position: usize,
        selected: Option<Seq<InstanceId>>,
    },
    PlaySpell { owner: PlayerId, card_id: InstanceId, selected: Option<Seq<InstanceId>> },
    Attack { player: PlayerId, initiator: InstanceId, target: InstanceId },
    Move { player: PlayerId, card_id: InstanceId, position: usize },
    EndTurn { player: PlayerId },
}

/// What the command `c` comes to, given in the state `g`, before the queue is
/// drained for it. A command that is refused leaves the state as it was.
pub open spec fn command_outcome(g: GameView, c: Command) -> Outcome {
    match c {
        Command::PlayMonster { owner, card_id, position, selected } => play_monster_outcome(
            g,
            owner,
            card_id,
            position,
            selected,
        ),
        Command::PlaySpell { owner, card_id, selected } => match play_spell_check(
            g,
            owner,
            card_id,
            selected,
        ) {
            Some(f) => start(g).stop(f),
            None => start(play_spell_result(g, owner, card_id, selected)),
        },
        Command::Attack { player, initiator, target } => attack_outcome(
            g,
            player,
            initiator,
            target,
        ),
        Command::Move { player, card_id, position } => match move_check(
            g,
            player,
            card_id,
            position,
        ) {
            Some(f) => start(g).stop(f),
            None => start(move_result(g, player, card_id, position)),
        },
        Command::EndTurn { player } => end_turn_outcome(g, player),
    }
}

/// `o`, and then the queue drained.
pub open spec fn then_drained(o: Outcome) -> Outcome {
    if o.fault is Some {
        o
    } else {
        after_actions(o.actions, drain(o.game, DRAIN_LIMIT as nat))
    }
}

/// `o`, and then the state shown to `player` and to the opponent, in this order.
pub open spec fn then_shown(o: Outcome, player: PlayerId) -> Outcome {
    if o.fault is Some {
        o
    } else {
        match public_view(o.game, player) {
            Err(f) => o.stop(f),
            Ok(own) => match public_view(o.game, opponent_of(o.game.players, player)->0) {
                Err(f) => o.stop(f),
                Ok(other) => o.record(ActionView::UpdateGameView { player, game: own }).record(
                    ActionView::UpdateGameView {
                        player: opponent_of(o.game.players, player)->0,
                        game: other,
                    },
                ),
            },
        }
    }
}

/// What a command of `player` comes to in all: the command itself, the drain
/// of the queue, and the state shown to both players.
pub open spec fn played(g: GameView, c: Command, player: PlayerId) -> Outcome {
    then_shown(then_drained(command_outcome(g, c)), player)
}

/// Whether the exec result `r` of a command is what `after` says.
pub open spec fn played_out(r: Result<(Vec<Action>, Game)>, after: Outcome) -> bool {
    match r {
        Ok(pair) => after.fault is None && pair.1@ == after.game && actions_view(pair.0@)
            == after.actions,
        Err(e) => after.fault is Some && e@ == after.fault->0.error_view(),
    }
}

/// Drains the queue of `game` after a command of `player` that recorded
/// `actions`, and shows the state to both players.
pub fn settle(game: Game, actions: Vec<Action>, player: PlayerId) -> (r: Result<(Vec<Action>, Game)>)
    ensures
        played_out(
            r,
            then_shown(then_drained(crate::game::logic::ops::entering(game@, actions@)), player),
        ),
{
    let mut game = game;
    let mut actions = actions;
    let ghost before = crate::game::logic::ops::entering(game@, actions@);
    let mut drained = match game.compute_commands() {
        Err(e) => {
            return Err(e);
        },
        Ok(drained) => drained,
    };
    proof {
        lemma_actions_add(actions@, drained@);
    }
    actions.append(&mut drained);
    let own = match PublicGameState::new(&game, player) {
        Err(e) => {
            return Err(e);
        },
        Ok(own) => own,
    };
    let opponent = match game.opponent_id(player) {
        None => {
            return Err(Fault::OpponentNotFound(player).to_error());
        },
        Some(q) => q,
    };
    let other = match PublicGameState::new(&game, opponent) {
        Err(e) => {
            return Err(e);
        },
        Ok(other) => other,
    };
    record(&mut actions, Action::UpdateGameView { player, game: own });
    record(&mut actions, Action::UpdateGameView { player: opponent, game: other });
    Ok((actions, game))
}

impl Clone for Game {
    fn clone(&self) -> (r: Self)
        ensures
            r@ == self@,
    {
        let mut entities: Vec<CardInstance> = Vec::new();
        let mut i: usize = 0;
        while i < self.entities.len()
            invariant
                i <= self.entities.len(),
                entities.len() == i,
                forall|j: int| 0 <= j < i ==> entities@[j]@ == self.entities@[j]@,
            decreases self.entities.len() - i,
        {
            entities.push(self.entities[i].clone());
            i += 1;
        }
        let mut effect_queue: VecDeque<Effect> = VecDeque::new();
        let mut k: usize = 0;
        while k < self.effect_queue.len()
            invariant
                k <= self.effect_queue.len(),
                effect_queue.len() == k,
                forall|j: int| 0 <= j < k ==> effect_queue@[j]@ == self.effect_queue@[j]@,
            decreases self.effect_queue.len() - k,
        {
            effect_queue.push_back(self.effect_queue[k].clone());
            k += 1;
        }
        let mut players: Vec<PlayerInstance> = Vec::new();
        let mut p: usize = 0;
        while p < self.players.len()
            invariant
                p <= self.players.len(),
                players@ == self.players@.take(p as int),
            decreases self.players.len() - p,
        {
            players.push(self.players[p]);
            p += 1;
            assert(players@ =~= self.players@.take(p as int));
        }
        assert(self.players@.take(p as int) =~= self.players@);
        let r = Game {
            game_id: self.game_id,
            player_id_a: self.player_id_a,
            player_id_b: self.player_id_b,
            entities,
            effect_queue,
            players,
            turn: self.turn,
            current_player: self.current_player,
            winner_id: self.winner_id,
            vs_ia: self.vs_ia,
        };
        assert(r@.entities =~= self@.entities);
        assert(r@.effect_queue =~= self@.effect_queue);
        r
    }
}

} // verus!
