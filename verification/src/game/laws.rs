//! What holds of a game whatever the players do.
//!
//! Each law is stated of one command and of one drain of the queue, in a form
//! that carries over: what it asks of the state before, it gives of the state
//! after. So it holds along any sequence of commands and drains.

use crate::game::card::{CardTypeView, CardView};
use crate::game::effects::{EffectView, PlayerTarget, TargetView};
use crate::game::logic::effect_outcome;
use crate::game::logic::laws::{
    all_avoid, avoids, caps_hold, card_free, cards_free, distinct_players, follows, form_kept,
    free_of, growth_for, in_form, law_drain_keeps_form, law_drain_keeps_slots, lemma_drain_follows,
    lemma_drain_free, lemma_drain_keeps_mana_sound, lemma_drain_runs_dry, lemma_effect_follows,
    lemma_form_kept, lemma_places_kept, mana_sound, pending_growth, places_kept, same_card,
    slots_apart, summoned_card, tame, Kind,
};
use crate::game::model::{
    attack_budget, count, entity_index, lemma_first_accepted_is_first, lemma_player_index_is_first,
    opponent_of, player_index, select_cards, start, GameView, Outcome, Selector,
};
use crate::game::types::{InstanceId, Location, PlayerId};
use crate::game::user_actions::play_monster::{chosen_effects, play_monster_check};
use crate::game::user_actions::play_spell::play_spell_check;
use crate::game::{
    ai_due, and_then, attack_check, begin_turn_outcome, command_outcome, drain, end_turn_outcome,
    move_check, refreshed_card, then_drained, turn_start, Command, DRAIN_LIMIT,
};
use crate::ia::attack::{attack_pass, best_attack};
use crate::ia::summon::{free_slots_upto, play_each, summon_choice, summon_pass};
use crate::ia::{ai_moves_outcome, game_mode};
use vstd::prelude::*;

verus! {

/// The state that the command `c` leaves, given in the state `g`. A command
/// that is refused leaves the state as it was.
pub open spec fn command_result(g: GameView, c: Command) -> GameView {
    command_outcome(g, c).game
}

/// How many cards the player `p` has in all: in the deck, in the hand, on the
/// field and in the graveyard.
pub open spec fn cards_of(g: GameView, p: PlayerId) -> nat {
    count(g.entities, Selector::DeckOf(p)) + count(g.entities, Selector::HandOf(p)) + count(
        g.entities,
        Selector::FieldOf(p),
    ) + count(g.entities, Selector::GraveyardOf(p))
}

/// Every card of a player is in exactly one of the four places.
pub proof fn lemma_cards_of_owned(es: Seq<CardView>, p: PlayerId)
    ensures
        count(es, Selector::DeckOf(p)) + count(es, Selector::HandOf(p)) + count(
            es,
            Selector::FieldOf(p),
        ) + count(es, Selector::GraveyardOf(p)) == count(es, Selector::OwnedBy(p)),
    decreases es.len(),
{
    if es.len() > 0 {
        lemma_cards_of_owned(es.drop_last(), p);
    }
}

/// How many cards a player owns depends on the owners alone.
pub proof fn lemma_owned_by_owners(a: Seq<CardView>, b: Seq<CardView>, p: PlayerId)
    requires
        a.len() == b.len(),
        forall|i: int| 0 <= i < a.len() ==> a[i].owner == (#[trigger] b[i]).owner,
    ensures
        count(a, Selector::OwnedBy(p)) == count(b, Selector::OwnedBy(p)),
    decreases a.len(),
{
    if a.len() > 0 {
        assert(a.last().owner == b[b.len() - 1].owner);
        assert forall|i: int| 0 <= i < a.drop_last().len() implies a.drop_last()[i].owner == (
        #[trigger] b.drop_last()[i]).owner by {
            assert(a[i].owner == b[i].owner);
        }
        lemma_owned_by_owners(a.drop_last(), b.drop_last(), p);
    }
}

/// Whether the states `g` and `h` hold the same cards of the same owners, in the same order.
pub open spec fn same_owners(g: GameView, h: GameView) -> bool {
    &&& g.entities.len() == h.entities.len()
    &&& forall|i: int| 0 <= i < g.entities.len() ==> g.entities[i].owner == (
    #[trigger] h.entities[i]).owner
}

/// Whether the states `g` and `h` hold the same cards under the same ids and
/// of the same owners, in the same order.
pub open spec fn same_cards(g: GameView, h: GameView) -> bool {
    &&& g.entities.len() == h.entities.len()
    &&& forall|i: int|
        0 <= i < g.entities.len() ==> g.entities[i].owner == (#[trigger] h.entities[i]).owner
            && g.entities[i].id == h.entities[i].id
}

/// States with the same cards of the same owners give each player as many cards.
pub proof fn lemma_same_owners_cards(g: GameView, h: GameView, p: PlayerId)
    requires
        same_owners(g, h),
    ensures
        cards_of(g, p) == cards_of(h, p),
{
    lemma_cards_of_owned(g.entities, p);
    lemma_cards_of_owned(h.entities, p);
    lemma_owned_by_owners(g.entities, h.entities, p);
}

/// A state that follows with as many cards holds the same cards of the same owners.
pub proof fn lemma_follows_same_owners(g: GameView, h: GameView)
    requires
        follows(g, h),
        g.entities.len() == h.entities.len(),
    ensures
        same_owners(g, h),
{
    assert forall|i: int| 0 <= i < g.entities.len() implies g.entities[i].owner == (
    #[trigger] h.entities[i]).owner by {
        assert(same_card(g.entities[i], h.entities[i]));
    }
}

/// Cards move and never vanish or multiply: an effect other than a summon
/// leaves each player as many cards as before.
pub proof fn law_effect_keeps_cards(g: GameView, e: EffectView, p: PlayerId)
    requires
        !(e is Summon),
    ensures
        cards_of(effect_outcome(g, e).game, p) == cards_of(g, p),
{
    let h = effect_outcome(g, e).game;
    lemma_effect_follows(g, e);
    let h0 = GameView { winner_id: g.winner_id, ..h };
    assert(follows(g, h0));
    crate::game::logic::laws::lemma_effect_count(g, e);
    lemma_follows_same_owners(g, h0);
    assert(same_owners(g, h));
    lemma_same_owners_cards(g, h, p);
}

/// Cards move and never vanish or multiply: in a game without summons, a drain
/// of the queue leaves each player as many cards as before, and the game stays
/// without summons.
pub proof fn law_drain_keeps_cards(g: GameView, fuel: nat, p: PlayerId)
    requires
        free_of(g, Kind::Summon),
    ensures
        free_of(drain(g, fuel).game, Kind::Summon),
        cards_of(drain(g, fuel).game, p) == cards_of(g, p),
{
    lemma_drain_free(g, fuel, Kind::Summon);
    lemma_drain_follows(g, fuel);
    let h = drain(g, fuel).game;
    lemma_follows_same_owners(g, GameView { winner_id: g.winner_id, ..h });
    assert(same_owners(g, h));
    lemma_same_owners_cards(g, h, p);
}

/// Aiming an effect at chosen targets does not change its kind.
pub proof fn lemma_chosen_effects_free(
    play_target: Option<crate::collection::types::PlayTarget>,
    effects: Seq<EffectView>,
    selected: Option<Seq<InstanceId>>,
    k: Kind,
)
    requires
        all_avoid(effects, k),
    ensures
        all_avoid(chosen_effects(play_target, effects, selected), k),
        chosen_effects(play_target, effects, selected).len() == effects.len(),
{
    let chosen = chosen_effects(play_target, effects, selected);
    assert forall|i: int| 0 <= i < chosen.len() implies avoids(#[trigger] chosen[i], k) by {
        assert(avoids(effects[i], k));
    }
}

/// A queue free of a kind, with effects free of it added, is free of it.
pub proof fn lemma_queue_add_free(q: Seq<EffectView>, added: Seq<EffectView>, k: Kind)
    requires
        all_avoid(q, k),
        all_avoid(added, k),
    ensures
        all_avoid(q + added, k),
{
    assert forall|i: int| 0 <= i < (q + added).len() implies avoids(#[trigger] (q + added)[i], k) by {
        if i < q.len() {
            assert((q + added)[i] == q[i]);
        } else {
            assert((q + added)[i] == added[i - q.len()]);
        }
    }
}

/// What a command does at once, before any drain: it keeps the cards and their
/// owners, and adds to the queue only what a card carries or an attack.
proof fn lemma_command_step(g: GameView, c: Command, k: Kind)
    requires
        !(c is EndTurn),
        free_of(g, k),
    ensures
        free_of(command_result(g, c), k),
        same_owners(g, command_result(g, c)),
{
    let h = command_result(g, c);
    match c {
        Command::PlayMonster { owner, card_id, position, selected } => {
            if play_monster_check(g, owner, card_id, position, selected) is None {
                lemma_first_accepted_is_first(g.entities, Selector::WithId(card_id));
                lemma_player_index_is_first(g.players, owner);
                let i = entity_index(g.entities, card_id)->0;
                let card = g.entities[i];
                let m = card.card_type->Monster_0;
                assert(card_free(card, k));
                lemma_chosen_effects_free(card.play_target, m.on_play, selected, k);
                lemma_queue_add_free(
                    g.effect_queue,
                    chosen_effects(card.play_target, m.on_play, selected),
                    k,
                );
                assert forall|j: int| 0 <= j < h.entities.len() implies card_free(
                    #[trigger] h.entities[j],
                    k,
                ) by {
                    assert(card_free(g.entities[j], k));
                }
            }
        },
        Command::PlaySpell { owner, card_id, selected } => {
            if play_spell_check(g, owner, card_id, selected) is None {
                lemma_first_accepted_is_first(g.entities, Selector::WithId(card_id));
                lemma_player_index_is_first(g.players, owner);
                let i = entity_index(g.entities, card_id)->0;
                let card = g.entities[i];
                let sp = card.card_type->Spell_0;
                assert(card_free(card, k));
                lemma_chosen_effects_free(card.play_target, sp.effect, selected, k);
                lemma_queue_add_free(
                    g.effect_queue,
                    chosen_effects(card.play_target, sp.effect, selected),
                    k,
                );
                assert forall|j: int| 0 <= j < h.entities.len() implies card_free(
                    #[trigger] h.entities[j],
                    k,
                ) by {
                    assert(card_free(g.entities[j], k));
                }
            }
        },
        Command::Attack { player, initiator, target } => {
            if attack_check(g, player, initiator, target) is None {
                lemma_first_accepted_is_first(g.entities, Selector::WithId(initiator));
                lemma_queue_add_free(
                    g.effect_queue,
                    seq![
                        EffectView::Attack { initiator, target: TargetView::Id(target) },
                    ],
                    k,
                );
                assert(h.effect_queue =~= g.effect_queue + seq![
                    EffectView::Attack { initiator, target: TargetView::Id(target) },
                ]);
                assert forall|j: int| 0 <= j < h.entities.len() implies card_free(
                    #[trigger] h.entities[j],
                    k,
                ) by {
                    assert(card_free(g.entities[j], k));
                }
            }
        },
        Command::Move { player, card_id, position } => {
            if move_check(g, player, card_id, position) is None {
                lemma_first_accepted_is_first(g.entities, Selector::WithId(card_id));
                lemma_player_index_is_first(g.players, player);
                assert forall|j: int| 0 <= j < h.entities.len() implies card_free(
                    #[trigger] h.entities[j],
                    k,
                ) by {
                    assert(card_free(g.entities[j], k));
                }
            }
        },
        Command::EndTurn { player } => {},
    }
}

/// The start of a turn keeps the cards and their owners, and queues nothing but
/// a draw and what grows and gives back mana.
proof fn lemma_turn_start_step(g: GameView, ending_player: PlayerId, k: Kind)
    requires
        turn_start(g, ending_player) is Ok,
        !(k is Growth),
        free_of(g, k),
    ensures
        free_of(turn_start(g, ending_player)->Ok_0, k),
        same_owners(g, turn_start(g, ending_player)->Ok_0),
{
    let h = turn_start(g, ending_player)->Ok_0;
    let s = opponent_of(g.players, ending_player)->0;
    lemma_player_index_is_first(g.players, s);
    assert forall|j: int| 0 <= j < h.entities.len() implies card_free(
        #[trigger] h.entities[j],
        k,
    ) && g.entities[j].owner == h.entities[j].owner by {
        assert(card_free(g.entities[j], k));
        assert(h.entities[j] == refreshed_card(g.entities[j], s));
    }
    assert forall|j: int| 0 <= j < h.effect_queue.len() implies avoids(
        #[trigger] h.effect_queue[j],
        k,
    ) by {
        if j < g.effect_queue.len() {
            assert(h.effect_queue[j] == g.effect_queue[j]);
        }
    }
}

/// Same owners, and then same owners, is same owners.
proof fn lemma_same_owners_chain(g: GameView, h: GameView, k: GameView)
    requires
        same_owners(g, h),
        same_owners(h, k),
    ensures
        same_owners(g, k),
{
    assert forall|i: int| 0 <= i < g.entities.len() implies g.entities[i].owner == (
    #[trigger] k.entities[i]).owner by {
        assert(g.entities[i].owner == h.entities[i].owner);
    }
}

/// Cards move and never vanish or multiply: in a game without summons, a
/// command leaves each player as many cards as before, in the deck, the hand,
/// the field and the graveyard together, and the game stays without summons.
pub proof fn law_command_keeps_cards(g: GameView, c: Command, p: PlayerId)
    requires
        free_of(g, Kind::Summon),
    ensures
        free_of(command_result(g, c), Kind::Summon),
        cards_of(command_result(g, c), p) == cards_of(g, p),
{
    match c {
        Command::EndTurn { player } => {
            lemma_end_turn(Law::Cards, g, player);
        },
        _ => {
            lemma_command_step(g, c, Kind::Summon);
        },
    }
    lemma_same_owners_cards(g, command_result(g, c), p);
}

/// Whether every monster of `g` has attacked no more often than it may in one
/// turn: once, or twice with Windfury.
pub open spec fn budget_kept(g: GameView) -> bool {
    forall|i: int|
        0 <= i < g.entities.len() ==> match (#[trigger] g.entities[i]).card_type {
            CardTypeView::Monster(m) => m.attack_count <= attack_budget(m),
            CardTypeView::Spell(_) => true,
        }
}

/// A state that follows keeps the attack budget.
pub proof fn lemma_follows_budget(g: GameView, h: GameView)
    requires
        follows(g, h),
        budget_kept(g),
    ensures
        budget_kept(h),
{
    assert forall|i: int| 0 <= i < h.entities.len() implies match (
    #[trigger] h.entities[i]).card_type {
        CardTypeView::Monster(m) => m.attack_count <= attack_budget(m),
        CardTypeView::Spell(_) => true,
    } by {
        if i < g.entities.len() {
            assert(same_card(g.entities[i], h.entities[i]));
        } else {
            assert(summoned_card(h.entities[i]));
        }
    }
}

/// No effect lets a monster exceed its attacks: effects never count an attack.
pub proof fn law_effect_keeps_budget(g: GameView, e: EffectView)
    requires
        budget_kept(g),
    ensures
        budget_kept(effect_outcome(g, e).game),
{
    let h = effect_outcome(g, e).game;
    lemma_effect_follows(g, e);
    lemma_follows_budget(g, GameView { winner_id: g.winner_id, ..h });
    assert(budget_kept(h)) by {
        assert((GameView { winner_id: g.winner_id, ..h }).entities == h.entities);
    }
}

/// No drain of the queue lets a monster exceed its attacks.
pub proof fn law_drain_keeps_budget(g: GameView, fuel: nat)
    requires
        budget_kept(g),
    ensures
        budget_kept(drain(g, fuel).game),
{
    let h = drain(g, fuel).game;
    lemma_drain_follows(g, fuel);
    lemma_follows_budget(g, GameView { winner_id: g.winner_id, ..h });
    assert(budget_kept(h)) by {
        assert((GameView { winner_id: g.winner_id, ..h }).entities == h.entities);
    }
}

/// In a state where every monster is within its attacks, the monster at the
/// place `j` is.
proof fn lemma_within_budget(g: GameView, j: int)
    requires
        budget_kept(g),
        0 <= j < g.entities.len(),
    ensures
        g.entities[j].card_type is Monster ==> g.entities[j].card_type->Monster_0.attack_count
            <= attack_budget(g.entities[j].card_type->Monster_0),
{
}

/// A command that is no end of turn keeps every monster within its attacks.
proof fn lemma_command_budget(g: GameView, c: Command)
    requires
        !(c is EndTurn),
        budget_kept(g),
    ensures
        budget_kept(command_result(g, c)),
{
    let h = command_result(g, c);
    match c {
        Command::PlayMonster { owner, card_id, position, selected } => {
            if play_monster_check(g, owner, card_id, position, selected) is None {
                lemma_first_accepted_is_first(g.entities, Selector::WithId(card_id));
                lemma_player_index_is_first(g.players, owner);
                let i = entity_index(g.entities, card_id)->0;
                assert forall|j: int| 0 <= j < h.entities.len() implies match (
                #[trigger] h.entities[j]).card_type {
                    CardTypeView::Monster(m) => m.attack_count <= attack_budget(m),
                    CardTypeView::Spell(_) => true,
                } by {
                    lemma_within_budget(g, j);
                }
            }
        },
        Command::PlaySpell { owner, card_id, selected } => {
            if play_spell_check(g, owner, card_id, selected) is None {
                lemma_first_accepted_is_first(g.entities, Selector::WithId(card_id));
                lemma_player_index_is_first(g.players, owner);
                assert forall|j: int| 0 <= j < h.entities.len() implies match (
                #[trigger] h.entities[j]).card_type {
                    CardTypeView::Monster(m) => m.attack_count <= attack_budget(m),
                    CardTypeView::Spell(_) => true,
                } by {
                    lemma_within_budget(g, j);
                }
            }
        },
        Command::Attack { player, initiator, target } => {
            if attack_check(g, player, initiator, target) is None {
                lemma_first_accepted_is_first(g.entities, Selector::WithId(initiator));
                assert forall|j: int| 0 <= j < h.entities.len() implies match (
                #[trigger] h.entities[j]).card_type {
                    CardTypeView::Monster(m) => m.attack_count <= attack_budget(m),
                    CardTypeView::Spell(_) => true,
                } by {
                    lemma_within_budget(g, j);
                }
            }
        },
        Command::Move { player, card_id, position } => {
            if move_check(g, player, card_id, position) is None {
                lemma_first_accepted_is_first(g.entities, Selector::WithId(card_id));
                lemma_player_index_is_first(g.players, player);
                assert forall|j: int| 0 <= j < h.entities.len() implies match (
                #[trigger] h.entities[j]).card_type {
                    CardTypeView::Monster(m) => m.attack_count <= attack_budget(m),
                    CardTypeView::Spell(_) => true,
                } by {
                    lemma_within_budget(g, j);
                }
            }
        },
        Command::EndTurn { player } => {},
    }
}

/// No monster attacks more often than once a turn, or twice with Windfury: a
/// command that finds every monster within its attacks leaves every monster
/// within them. Only a declared attack counts one, and only below the limit;
/// the start of the owner's turn gives the attacks back.
pub proof fn law_command_keeps_budget(g: GameView, c: Command)
    requires
        budget_kept(g),
    ensures
        budget_kept(command_result(g, c)),
{
    match c {
        Command::EndTurn { player } => {
            lemma_end_turn(Law::Budget, g, player);
        },
        _ => {
            lemma_command_budget(g, c);
        },
    }
}

/// The start of a turn keeps every monster within its attacks: it gives them back.
proof fn lemma_turn_start_budget(g: GameView, ending_player: PlayerId)
    requires
        turn_start(g, ending_player) is Ok,
        budget_kept(g),
    ensures
        budget_kept(turn_start(g, ending_player)->Ok_0),
{
    let g1 = turn_start(g, ending_player)->Ok_0;
    let s = opponent_of(g.players, ending_player)->0;
    lemma_player_index_is_first(g.players, s);
    assert forall|j: int| 0 <= j < g1.entities.len() implies match (
    #[trigger] g1.entities[j]).card_type {
        CardTypeView::Monster(m) => m.attack_count <= attack_budget(m),
        CardTypeView::Spell(_) => true,
    } by {
        assert(g1.entities[j] == refreshed_card(g.entities[j], s));
        assert(g.entities[j].card_type is Monster ==> g.entities[j].card_type->Monster_0.attack_count
            <= attack_budget(g.entities[j].card_type->Monster_0));
    }
}

/// Whether the mana of `g` is in order and nothing in the queue will grow a
/// base mana: the state between two commands of a game that runs without failure.
pub open spec fn mana_settled(g: GameView) -> bool {
    mana_sound(g) && all_avoid(g.effect_queue, Kind::Growth)
}

/// A queue without growth gives no base mana.
pub proof fn lemma_pending_none(q: Seq<EffectView>, p: PlayerId)
    requires
        all_avoid(q, Kind::Growth),
    ensures
        pending_growth(q, p) == 0,
    decreases q.len(),
{
    if q.len() > 0 {
        assert(avoids(q[q.len() - 1], Kind::Growth));
        assert forall|i: int| 0 <= i < q.drop_last().len() implies avoids(
            #[trigger] q.drop_last()[i],
            Kind::Growth,
        ) by {
            assert(avoids(q[i], Kind::Growth));
        }
        lemma_pending_none(q.drop_last(), p);
    }
}

/// Mana never exceeds base mana, and base mana never exceeds ten: a drain of
/// the queue keeps the mana in order, and where it does not fail it leaves
/// nothing behind that would grow a base mana.
pub proof fn law_drain_keeps_mana(g: GameView, fuel: nat)
    requires
        mana_sound(g),
    ensures
        mana_sound(drain(g, fuel).game),
        caps_hold(drain(g, fuel).game),
        drain(g, fuel).fault is None ==> mana_settled(drain(g, fuel).game),
{
    lemma_drain_keeps_mana_sound(g, fuel);
    if drain(g, fuel).fault is None {
        lemma_drain_runs_dry(g, fuel);
    }
}

/// The players after a command that is no end of turn: the same ones, with no
/// more mana and the same base mana.
proof fn lemma_command_mana(g: GameView, c: Command)
    requires
        !(c is EndTurn),
        mana_settled(g),
    ensures
        mana_settled(command_result(g, c)),
{
    let h = command_result(g, c);
    let k = Kind::Growth;
    assert forall|p: PlayerId| pending_growth(g.effect_queue, p) == 0 by {
        lemma_pending_none(g.effect_queue, p);
    }
    match c {
        Command::PlayMonster { owner, card_id, position, selected } => {
            if play_monster_check(g, owner, card_id, position, selected) is None {
                lemma_first_accepted_is_first(g.entities, Selector::WithId(card_id));
                lemma_player_index_is_first(g.players, owner);
                let i = entity_index(g.entities, card_id)->0;
                let card = g.entities[i];
                let m = card.card_type->Monster_0;
                assert(card_free(card, k));
                lemma_chosen_effects_free(card.play_target, m.on_play, selected, k);
                lemma_queue_add_free(
                    g.effect_queue,
                    chosen_effects(card.play_target, m.on_play, selected),
                    k,
                );
                assert forall|j: int| 0 <= j < h.entities.len() implies card_free(
                    #[trigger] h.entities[j],
                    k,
                ) by {
                    assert(card_free(g.entities[j], k));
                }
                assert forall|j: int| 0 <= j < h.players.len() implies (
                #[trigger] h.players[j]).mana <= g.players[j].mana && h.players[j].base_mana
                    == g.players[j].base_mana && h.players[j].player_id
                    == g.players[j].player_id by {}
            }
        },
        Command::PlaySpell { owner, card_id, selected } => {
            if play_spell_check(g, owner, card_id, selected) is None {
                lemma_first_accepted_is_first(g.entities, Selector::WithId(card_id));
                lemma_player_index_is_first(g.players, owner);
                let i = entity_index(g.entities, card_id)->0;
                let card = g.entities[i];
                let sp = card.card_type->Spell_0;
                assert(card_free(card, k));
                lemma_chosen_effects_free(card.play_target, sp.effect, selected, k);
                lemma_queue_add_free(
                    g.effect_queue,
                    chosen_effects(card.play_target, sp.effect, selected),
                    k,
                );
                assert forall|j: int| 0 <= j < h.entities.len() implies card_free(
                    #[trigger] h.entities[j],
                    k,
                ) by {
                    assert(card_free(g.entities[j], k));
                }
                assert forall|j: int| 0 <= j < h.players.len() implies (
                #[trigger] h.players[j]).mana <= g.players[j].mana && h.players[j].base_mana
                    == g.players[j].base_mana && h.players[j].player_id
                    == g.players[j].player_id by {}
            }
        },
        Command::Attack { player, initiator, target } => {
            if attack_check(g, player, initiator, target) is None {
                lemma_first_accepted_is_first(g.entities, Selector::WithId(initiator));
                lemma_queue_add_free(
                    g.effect_queue,
                    seq![
                        EffectView::Attack { initiator, target: TargetView::Id(target) },
                    ],
                    k,
                );
                assert(h.effect_queue =~= g.effect_queue + seq![
                    EffectView::Attack { initiator, target: TargetView::Id(target) },
                ]);
                assert forall|j: int| 0 <= j < h.entities.len() implies card_free(
                    #[trigger] h.entities[j],
                    k,
                ) by {
                    assert(card_free(g.entities[j], k));
                }
            }
        },
        Command::Move { player, card_id, position } => {
            if move_check(g, player, card_id, position) is None {
                lemma_first_accepted_is_first(g.entities, Selector::WithId(card_id));
                lemma_player_index_is_first(g.players, player);
                assert forall|j: int| 0 <= j < h.entities.len() implies card_free(
                    #[trigger] h.entities[j],
                    k,
                ) by {
                    assert(card_free(g.entities[j], k));
                }
                assert forall|j: int| 0 <= j < h.players.len() implies (
                #[trigger] h.players[j]).mana == g.players[j].mana && h.players[j].base_mana
                    == g.players[j].base_mana && h.players[j].player_id
                    == g.players[j].player_id by {}
            }
        },
        Command::EndTurn { player } => {},
    }
    assert forall|p: PlayerId| pending_growth(h.effect_queue, p) == 0 by {
        lemma_pending_none(h.effect_queue, p);
    }
    assert forall|j: int| 0 <= j < h.effect_queue.len() implies tame(
        #[trigger] h.effect_queue[j],
    ) by {
        assert(avoids(h.effect_queue[j], k));
    }
}

/// The mana is in order as a turn starts, with the growth by one counted that
/// the start queues for a player below ten.
proof fn lemma_turn_start_mana(g: GameView, ending_player: PlayerId)
    requires
        turn_start(g, ending_player) is Ok,
        mana_settled(g),
    ensures
        mana_sound(turn_start(g, ending_player)->Ok_0),
{
    let h = turn_start(g, ending_player)->Ok_0;
    let s = opponent_of(g.players, ending_player)->0;
    let k = Kind::Growth;
    lemma_player_index_is_first(g.players, s);
    let pi = player_index(g.players, s)->0;
    let p = g.players[pi];
    assert forall|j: int| 0 <= j < h.entities.len() implies card_free(#[trigger] h.entities[j], k) by {
        assert(card_free(g.entities[j], k));
        assert(h.entities[j] == refreshed_card(g.entities[j], s));
    }
    let q0 = g.effect_queue.push(EffectView::AutoDraw { player: s, amount: 1 });
    let grow = EffectView::IncreaseMaxMana {
        initiator: s,
        player: PlayerTarget::Player,
        amount: 1,
    };
    let q1 = if p.base_mana < 10 {
        q0.push(grow)
    } else {
        q0
    };
    assert(h.effect_queue == q1.push(h.effect_queue.last()));
    assert(crate::game::model::is_player(s)) by {
        assert(g.players[pi].player_id == s);
    }
    assert forall|j: int| 0 <= j < h.effect_queue.len() implies tame(
        #[trigger] h.effect_queue[j],
    ) by {
        if j < g.effect_queue.len() {
            assert(h.effect_queue[j] == g.effect_queue[j]);
            assert(avoids(g.effect_queue[j], k));
        }
    }
    assert forall|x: PlayerId| pending_growth(h.effect_queue, x) == (if p.base_mana < 10 && x == s {
        1nat
    } else {
        0nat
    }) by {
        lemma_pending_none(g.effect_queue, x);
        let q2 = h.effect_queue;
        assert(q2.drop_last() =~= q1);
        assert(q2.last() is RefreshMana);
        assert(pending_growth(q2, x) == pending_growth(q1, x));
        assert(q0.drop_last() =~= g.effect_queue);
        assert(q0.last() is AutoDraw);
        assert(pending_growth(q0, x) == pending_growth(g.effect_queue, x));
        if p.base_mana < 10 {
            assert(q1.drop_last() =~= q0);
            assert(q1.last() == grow);
            assert(pending_growth(q1, x) == pending_growth(q0, x) + growth_for(grow, x));
        }
    }
    assert forall|i: int| 0 <= i < h.players.len() implies {
        &&& (#[trigger] h.players[i]).mana <= h.players[i].base_mana
        &&& h.players[i].base_mana + pending_growth(h.effect_queue, h.players[i].player_id)
            <= 10
    } by {
        lemma_pending_none(g.effect_queue, g.players[i].player_id);
        assert(g.players[i].mana <= g.players[i].base_mana);
        if g.players[i].player_id == s {
            assert(i == pi);
        }
    }
    assert(distinct_players(h)) by {
        assert forall|i: int, j: int| 0 <= i < j < h.players.len() implies (
        #[trigger] h.players[i]).player_id != (#[trigger] h.players[j]).player_id by {
            assert(g.players[i].player_id == h.players[i].player_id);
            assert(g.players[j].player_id == h.players[j].player_id);
        }
        assert forall|i: int| 0 <= i < h.players.len() implies crate::game::model::is_player(
            (#[trigger] h.players[i]).player_id,
        ) by {
            assert(g.players[i].player_id == h.players[i].player_id);
        }
    }
}

/// Mana never exceeds base mana, and base mana never exceeds ten: a command
/// given in a settled state keeps the mana in order. The state is settled again
/// after every command but an end of turn whose drain failed.
pub proof fn law_command_keeps_mana(g: GameView, c: Command)
    requires
        mana_settled(g),
    ensures
        mana_sound(command_result(g, c)),
        caps_hold(command_result(g, c)),
        !(c is EndTurn) ==> mana_settled(command_result(g, c)),
        c matches Command::EndTurn { player } && end_turn_outcome(g, player).fault is None
            ==> mana_settled(command_result(g, c)),
{
    match c {
        Command::EndTurn { player } => {
            lemma_end_turn(Law::Mana, g, player);
        },
        _ => {
            lemma_command_mana(g, c);
        },
    }
}

/// One of the laws that hold along a game.
pub enum Law {
    /// Cards move and never vanish or multiply.
    Cards,
    /// No monster attacks more often than it may.
    Budget,
    /// Mana stays within base mana, and base mana within ten.
    Mana,
    /// Cards stay named apart, and health within what can be had.
    Form,
    /// No player has two cards on one slot of the field.
    Slots,
}

/// What the law `law` asks of the state in which a command is given.
pub open spec fn law_asks(law: Law, g: GameView) -> bool {
    match law {
        Law::Cards => free_of(g, Kind::Summon),
        Law::Budget => budget_kept(g),
        Law::Mana => mana_settled(g),
        Law::Form => in_form(g),
        Law::Slots => slots_apart(g) && free_of(g, Kind::Landing) && in_form(g),
    }
}

/// What the law `law` gives of the outcome `o` of something done in the state `g`.
pub open spec fn law_gives(law: Law, g: GameView, o: Outcome) -> bool {
    match law {
        Law::Cards => free_of(o.game, Kind::Summon) && same_owners(g, o.game),
        Law::Budget => budget_kept(o.game),
        Law::Mana => mana_sound(o.game) && (o.fault is None ==> mana_settled(o.game)),
        Law::Form => in_form(o.game),
        Law::Slots => slots_apart(o.game) && free_of(o.game, Kind::Landing) && in_form(o.game),
    }
}

/// What a law gives of something done, and then of what is done next, it gives of both together.
proof fn lemma_law_chain(law: Law, g: GameView, o: Outcome, next: Outcome)
    requires
        law_gives(law, g, o),
        o.fault is None ==> law_gives(law, o.game, next),
    ensures
        law_gives(law, g, and_then(o, next)),
{
    if o.fault is None {
        match law {
            Law::Cards => {
                lemma_same_owners_chain(g, o.game, next.game);
            },
            _ => {},
        }
    }
}

/// What a law gives without failure, it asks no more than that for what comes next.
proof fn lemma_law_carries(law: Law, g: GameView, o: Outcome)
    requires
        law_gives(law, g, o),
        o.fault is None,
    ensures
        law_asks(law, o.game),
{
}

/// Each law holds of a drain of the queue.
proof fn lemma_law_drain(law: Law, g: GameView, fuel: nat)
    requires
        law_asks(law, g),
    ensures
        law_gives(law, g, drain(g, fuel)),
{
    match law {
        Law::Cards => {
            lemma_drain_free(g, fuel, Kind::Summon);
            lemma_drain_follows(g, fuel);
            let h = drain(g, fuel).game;
            lemma_follows_same_owners(g, GameView { winner_id: g.winner_id, ..h });
            assert(same_owners(g, h));
        },
        Law::Budget => {
            law_drain_keeps_budget(g, fuel);
        },
        Law::Mana => {
            law_drain_keeps_mana(g, fuel);
        },
        Law::Form => {
            law_drain_keeps_form(g, fuel);
        },
        Law::Slots => {
            law_drain_keeps_form(g, fuel);
            law_drain_keeps_slots(g, fuel);
        },
    }
}

/// Each law holds of a command that is no end of turn, before the drain.
proof fn lemma_law_command(law: Law, g: GameView, c: Command)
    requires
        !(c is EndTurn),
        law_asks(law, g),
        law is Slots ==> fair_play(g, c),
    ensures
        law_gives(law, g, command_outcome(g, c)),
        law_asks(law, command_outcome(g, c).game),
{
    match law {
        Law::Cards => {
            lemma_command_step(g, c, Kind::Summon);
        },
        Law::Budget => {
            lemma_command_budget(g, c);
        },
        Law::Mana => {
            lemma_command_mana(g, c);
        },
        Law::Form => {
            lemma_command_form(g, c);
        },
        Law::Slots => {
            lemma_command_form(g, c);
            lemma_command_step(g, c, Kind::Landing);
            lemma_command_slots(g, c);
        },
    }
}

/// Each law holds of something done and the drain after it.
proof fn lemma_law_then_drained(law: Law, g: GameView, o: Outcome)
    requires
        law_gives(law, g, o),
        law_asks(law, o.game),
    ensures
        law_gives(law, g, then_drained(o)),
{
    if o.fault is None {
        lemma_law_drain(law, o.game, DRAIN_LIMIT as nat);
        lemma_law_chain(law, g, o, drain(o.game, DRAIN_LIMIT as nat));
    }
}

/// Each law holds of an attack pass.
proof fn lemma_law_attack_pass(
    law: Law,
    g: GameView,
    player_id: PlayerId,
    mode: crate::ia::IaBehavior,
    fuel: nat,
)
    requires
        law_asks(law, g),
    ensures
        law_gives(law, g, attack_pass(g, player_id, mode, fuel)),
    decreases fuel,
{
    lemma_law_nothing(law, g);
    match best_attack(g, player_id, mode) {
        Ok(Some(c)) => {
            if fuel > 0 {
                let cmd = Command::Attack {
                    player: player_id,
                    initiator: c.attacker,
                    target: c.target,
                };
                lemma_law_command(law, g, cmd);
                let o = then_drained(command_outcome(g, cmd));
                lemma_law_then_drained(law, g, command_outcome(g, cmd));
                if o.fault is None {
                    lemma_law_carries(law, g, o);
                    lemma_law_attack_pass(law, o.game, player_id, mode, (fuel - 1) as nat);
                }
                lemma_law_chain(
                    law,
                    g,
                    o,
                    attack_pass(o.game, player_id, mode, (fuel - 1) as nat),
                );
            }
        },
        _ => {},
    }
}

/// Each law holds where nothing is done, and where something is refused.
proof fn lemma_law_nothing(law: Law, g: GameView)
    requires
        law_asks(law, g),
    ensures
        law_gives(law, g, start(g)),
        forall|f: crate::error::Fault| law_gives(law, g, #[trigger] start(g).stop(f)),
{
}

/// Each law holds of a row of monsters played.
proof fn lemma_law_play_each(
    law: Law,
    g: GameView,
    owner: PlayerId,
    cards: Seq<InstanceId>,
    slots: Seq<usize>,
    n: nat,
)
    requires
        law_asks(law, g),
        n <= cards.len(),
        law is Slots ==> forall|k: int| 0 <= k < n ==> owned_by(g, #[trigger] cards[k], owner),
    ensures
        law_gives(law, g, play_each(start(g), owner, cards, slots, n)),
        law_asks(law, play_each(start(g), owner, cards, slots, n).game),
        same_cards(g, play_each(start(g), owner, cards, slots, n).game),
    decreases n,
{
    lemma_law_nothing(law, g);
    if n > 0 {
        let before = play_each(start(g), owner, cards, slots, (n - 1) as nat);
        lemma_law_play_each(law, g, owner, cards, slots, (n - 1) as nat);
        if before.fault is None {
            let cmd = Command::PlayMonster {
                owner,
                card_id: cards[n - 1],
                position: slots[n - 1],
                selected: None,
            };
            lemma_command_same(before.game, cmd);
            lemma_same_cards_chain(g, before.game, command_outcome(before.game, cmd).game);
            if law is Slots {
                assert(owned_by(g, cards[n - 1], owner));
                lemma_owned_fair(g, before.game, cards[n - 1], owner, slots[n - 1], None);
            }
            lemma_law_command(law, before.game, cmd);
            lemma_law_chain(law, g, before, command_outcome(before.game, cmd));
        }
    }
}

/// Each law holds of a summon pass.
proof fn lemma_law_summon_pass(law: Law, g: GameView, player_id: PlayerId)
    requires
        law_asks(law, g),
    ensures
        law_gives(law, g, summon_pass(g, player_id)),
{
    lemma_law_nothing(law, g);
    if count(g.entities, Selector::FieldOf(player_id)) < 7 {
        if player_index(g.players, player_id) is Some {
            let cards = summon_choice(g, player_id);
            let slots = free_slots_upto(g.entities, player_id, 7);
            let n = if cards.len() <= slots.len() {
                cards.len()
            } else {
                slots.len()
            };
            if law is Slots {
                assert forall|k: int| 0 <= k < n implies owned_by(
                    g,
                    #[trigger] cards[k],
                    player_id,
                ) by {
                    lemma_choice_owned(g, player_id, k);
                }
            }
            lemma_law_play_each(law, g, player_id, cards, slots, n);
            lemma_law_then_drained(law, g, play_each(start(g), player_id, cards, slots, n));
        }
    } else {
        lemma_law_then_drained(law, g, start(g));
    }
}

/// Each law holds of the moves of the engine's player.
proof fn lemma_law_ai_moves(law: Law, g: GameView, player_id: PlayerId)
    requires
        law_asks(law, g),
    ensures
        law_gives(law, g, ai_moves_outcome(g, player_id)),
{
    lemma_law_nothing(law, g);
    match game_mode(g, player_id) {
        Ok(mode) => {
            let o1 = attack_pass(g, player_id, mode, DRAIN_LIMIT as nat);
            lemma_law_attack_pass(law, g, player_id, mode, DRAIN_LIMIT as nat);
            if o1.fault is None {
                lemma_law_carries(law, g, o1);
                lemma_law_summon_pass(law, o1.game, player_id);
            }
            let o2 = and_then(o1, summon_pass(o1.game, player_id));
            lemma_law_chain(law, g, o1, summon_pass(o1.game, player_id));
            if o2.fault is None {
                lemma_law_carries(law, g, o2);
                lemma_law_attack_pass(law, o2.game, player_id, mode, DRAIN_LIMIT as nat);
            }
            lemma_law_chain(
                law,
                g,
                o2,
                attack_pass(o2.game, player_id, mode, DRAIN_LIMIT as nat),
            );
        },
        Err(_) => {},
    }
}

/// Each law holds of the beginning of a turn.
proof fn lemma_law_begin_turn(law: Law, g: GameView, ending_player: PlayerId)
    requires
        law_asks(law, g),
    ensures
        law_gives(law, g, begin_turn_outcome(g, ending_player)),
{
    lemma_law_nothing(law, g);
    if turn_start(g, ending_player) is Ok {
        let g1 = turn_start(g, ending_player)->Ok_0;
        let d = drain(g1, DRAIN_LIMIT as nat);
        match law {
            Law::Cards => {
                lemma_turn_start_step(g, ending_player, Kind::Summon);
                lemma_law_drain(law, g1, DRAIN_LIMIT as nat);
                lemma_same_owners_chain(g, g1, d.game);
            },
            Law::Budget => {
                lemma_turn_start_budget(g, ending_player);
                law_drain_keeps_budget(g1, DRAIN_LIMIT as nat);
            },
            Law::Mana => {
                lemma_turn_start_mana(g, ending_player);
                law_drain_keeps_mana(g1, DRAIN_LIMIT as nat);
            },
            Law::Form => {
                lemma_turn_start_form(g, ending_player);
                law_drain_keeps_form(g1, DRAIN_LIMIT as nat);
            },
            Law::Slots => {
                lemma_turn_start_form(g, ending_player);
                lemma_turn_start_step(g, ending_player, Kind::Landing);
                lemma_turn_start_slots(g, ending_player);
                law_drain_keeps_form(g1, DRAIN_LIMIT as nat);
                law_drain_keeps_slots(g1, DRAIN_LIMIT as nat);
            },
        }
    }
}

/// Each law holds of the end of a turn, with the moves of the engine's player
/// where they follow.
proof fn lemma_end_turn(law: Law, g: GameView, ending_player: PlayerId)
    requires
        law_asks(law, g),
    ensures
        law_gives(law, g, end_turn_outcome(g, ending_player)),
{
    let o1 = begin_turn_outcome(g, ending_player);
    lemma_law_begin_turn(law, g, ending_player);
    if o1.fault is None && ai_due(o1.game) {
        let seat = o1.game.player_id_b;
        lemma_law_carries(law, g, o1);
        lemma_law_ai_moves(law, o1.game, seat);
        let o2 = and_then(o1, ai_moves_outcome(o1.game, seat));
        lemma_law_chain(law, g, o1, ai_moves_outcome(o1.game, seat));
        if o2.fault is None {
            lemma_law_carries(law, g, o2);
            lemma_law_begin_turn(law, o2.game, o2.game.player_id_b);
        }
        lemma_law_chain(law, g, o2, begin_turn_outcome(o2.game, o2.game.player_id_b));
    }
}

/// Whether every card of `cards` is as a deal makes it: a card in the deck that
/// has not attacked, and that carries nothing that grows a base mana or lands a
/// card of the hand.
pub open spec fn freshly_dealt(cards: Seq<CardView>) -> bool {
    forall|i: int|
        0 <= i < cards.len() ==> card_free(#[trigger] cards[i], Kind::Growth) && card_free(
            cards[i],
            Kind::Landing,
        ) && cards[i].location == Location::Deck && match cards[i].card_type {
            CardTypeView::Monster(m) => m.attack_count == 0,
            CardTypeView::Spell(_) => true,
        }
}

/// A card made from a template has not attacked and carries nothing that grows a base mana.
pub proof fn lemma_instance_fresh(
    t: crate::collection::types::CardTemplateView,
    id: InstanceId,
    owner: PlayerId,
    opponent: PlayerId,
)
    ensures
        freshly_dealt(seq![t.instantiate(id, owner, opponent)]),
{
    match t.card_type {
        crate::collection::types::CardTypeTemplateView::Monster(m) => {
            crate::game::logic::laws::lemma_bind_avoids_growth(m.on_play, id);
            crate::game::logic::laws::lemma_bind_avoids_growth(m.on_attack, id);
            crate::game::logic::laws::lemma_bind_avoids_growth(m.on_death, id);
        },
        crate::collection::types::CardTypeTemplateView::Spell(sp) => {
            crate::game::logic::laws::lemma_bind_avoids_growth(sp.effect, id);
        },
    }
    let c = t.instantiate(id, owner, opponent);
    assert forall|i: int| 0 <= i < seq![c].len() implies card_free(
        #[trigger] seq![c][i],
        Kind::Growth,
    ) && card_free(seq![c][i], Kind::Landing) && seq![c][i].location == Location::Deck
        && match seq![c][i].card_type {
        CardTypeView::Monster(m) => m.attack_count == 0,
        CardTypeView::Spell(_) => true,
    } by {
        assert(seq![c][i] == c);
    }
}

/// The cards of a deal are freshly dealt.
pub proof fn lemma_dealt_fresh(
    deck: Seq<crate::collection::types::TemplateId>,
    collection: Seq<crate::collection::types::CardTemplateView>,
    owner: PlayerId,
    opponent: PlayerId,
    first_id: int,
)
    requires
        crate::game::dealt(deck, collection, owner, opponent, first_id) is Ok,
    ensures
        freshly_dealt(crate::game::dealt(deck, collection, owner, opponent, first_id)->Ok_0),
    decreases deck.len(),
{
    if deck.len() > 0 {
        lemma_dealt_fresh(deck.drop_last(), collection, owner, opponent, first_id);
        let before = crate::game::dealt(deck.drop_last(), collection, owner, opponent, first_id)->Ok_0;
        let k = crate::game::template_at(collection, deck.last(), 0)->0;
        let c = collection[k].instantiate((first_id + deck.len() - 1) as usize, owner, opponent);
        lemma_instance_fresh(collection[k], (first_id + deck.len() - 1) as usize, owner, opponent);
        let all = crate::game::dealt(deck, collection, owner, opponent, first_id)->Ok_0;
        assert(all == before.push(c));
        assert(seq![c][0] == c);
        assert forall|i: int| 0 <= i < all.len() implies card_free(#[trigger] all[i], Kind::Growth)
            && card_free(all[i], Kind::Landing) && all[i].location == Location::Deck
            && match all[i].card_type {
            CardTypeView::Monster(m) => m.attack_count == 0,
            CardTypeView::Spell(_) => true,
        } by {
            if i < before.len() {
                assert(all[i] == before[i]);
            } else {
                assert(all[i] == c);
            }
        }
    }
}

/// A game opens in order: every monster is within its attacks, no player has
/// more mana than base mana, no base mana is above ten, and nothing in the
/// queue will grow one; every card is in its deck, and nothing will land a card
/// of the hand by itself.
pub proof fn law_opening_in_order(
    game_id: u128,
    deck_a: Seq<crate::collection::types::TemplateId>,
    deck_b: Seq<crate::collection::types::TemplateId>,
    collection_a: Seq<crate::collection::types::CardTemplateView>,
    collection_b: Seq<crate::collection::types::CardTemplateView>,
    archetype_a: crate::collection::Archetype,
    archetype_b: crate::collection::Archetype,
    vs_ia: bool,
)
    requires
        crate::game::opening_cards(deck_a, deck_b, collection_a, collection_b) is Ok,
    ensures
        budget_kept(
            crate::game::opening(
                game_id,
                crate::game::opening_cards(deck_a, deck_b, collection_a, collection_b)->Ok_0,
                archetype_a,
                archetype_b,
                vs_ia,
            ),
        ),
        mana_settled(
            crate::game::opening(
                game_id,
                crate::game::opening_cards(deck_a, deck_b, collection_a, collection_b)->Ok_0,
                archetype_a,
                archetype_b,
                vs_ia,
            ),
        ),
        slots_apart(
            crate::game::opening(
                game_id,
                crate::game::opening_cards(deck_a, deck_b, collection_a, collection_b)->Ok_0,
                archetype_a,
                archetype_b,
                vs_ia,
            ),
        ),
        free_of(
            crate::game::opening(
                game_id,
                crate::game::opening_cards(deck_a, deck_b, collection_a, collection_b)->Ok_0,
                archetype_a,
                archetype_b,
                vs_ia,
            ),
            Kind::Landing,
        ),
{
    let cards = crate::game::opening_cards(deck_a, deck_b, collection_a, collection_b)->Ok_0;
    let g = crate::game::opening(game_id, cards, archetype_a, archetype_b, vs_ia);
    let a = crate::game::dealt(deck_a, collection_a, 0, 1, 2)->Ok_0;
    let b = crate::game::dealt(deck_b, collection_b, 1, 0, 2 + deck_a.len() as int)->Ok_0;
    lemma_dealt_fresh(deck_a, collection_a, 0, 1, 2);
    lemma_dealt_fresh(deck_b, collection_b, 1, 0, 2 + deck_a.len() as int);
    assert(cards == a + b);
    assert forall|i: int| 0 <= i < cards.len() implies card_free(#[trigger] cards[i], Kind::Growth)
        && card_free(cards[i], Kind::Landing) && cards[i].location == Location::Deck
        && match cards[i].card_type {
        CardTypeView::Monster(m) => m.attack_count == 0,
        CardTypeView::Spell(_) => true,
    } by {
        if i < a.len() {
            assert(cards[i] == a[i]);
        } else {
            assert(cards[i] == b[i - a.len()]);
        }
    }
    assert(budget_kept(g)) by {
        assert forall|i: int| 0 <= i < g.entities.len() implies match (
        #[trigger] g.entities[i]).card_type {
            CardTypeView::Monster(m) => m.attack_count <= attack_budget(m),
            CardTypeView::Spell(_) => true,
        } by {
            assert(card_free(cards[i], Kind::Growth));
        }
    }
    assert(all_avoid(g.effect_queue, Kind::Growth));
    assert forall|p: PlayerId| pending_growth(g.effect_queue, p) == 0 by {
        lemma_pending_none(g.effect_queue, p);
    }
    assert(cards_free(g, Kind::Growth) && cards_free(g, Kind::Landing)) by {
        assert forall|i: int| 0 <= i < g.entities.len() implies card_free(
            #[trigger] g.entities[i],
            Kind::Growth,
        ) && card_free(g.entities[i], Kind::Landing) by {
            assert(card_free(cards[i], Kind::Growth));
        }
    }
    assert(all_avoid(g.effect_queue, Kind::Landing));
    assert(slots_apart(g)) by {
        assert forall|i: int, j: int|
            0 <= i < j < g.entities.len() && (#[trigger] g.entities[i]).owner == (
            #[trigger] g.entities[j]).owner && g.entities[i].location is Field implies g.entities[i].location
            != g.entities[j].location by {
            assert(card_free(cards[i], Kind::Growth));
        }
    }
}

/// A command that is no end of turn keeps the form.
proof fn lemma_command_form(g: GameView, c: Command)
    requires
        !(c is EndTurn),
        in_form(g),
    ensures
        in_form(command_outcome(g, c).game),
{
    let h = command_outcome(g, c).game;
    match c {
        Command::PlayMonster { owner, card_id, position, selected } => {
            if play_monster_check(g, owner, card_id, position, selected) is None {
                lemma_first_accepted_is_first(g.entities, Selector::WithId(card_id));
                lemma_player_index_is_first(g.players, owner);
            }
        },
        Command::PlaySpell { owner, card_id, selected } => {
            if play_spell_check(g, owner, card_id, selected) is None {
                lemma_first_accepted_is_first(g.entities, Selector::WithId(card_id));
                lemma_player_index_is_first(g.players, owner);
            }
        },
        Command::Attack { player, initiator, target } => {
            if attack_check(g, player, initiator, target) is None {
                lemma_first_accepted_is_first(g.entities, Selector::WithId(initiator));
            }
        },
        Command::Move { player, card_id, position } => {
            if move_check(g, player, card_id, position) is None {
                lemma_first_accepted_is_first(g.entities, Selector::WithId(card_id));
                lemma_player_index_is_first(g.players, player);
            }
        },
        Command::EndTurn { player } => {},
    }
    assert(form_kept(g, h));
    lemma_form_kept(g, h);
}

/// The start of a turn keeps the form.
proof fn lemma_turn_start_form(g: GameView, ending_player: PlayerId)
    requires
        turn_start(g, ending_player) is Ok,
        in_form(g),
    ensures
        in_form(turn_start(g, ending_player)->Ok_0),
{
    let h = turn_start(g, ending_player)->Ok_0;
    let s = opponent_of(g.players, ending_player)->0;
    lemma_player_index_is_first(g.players, s);
    assert forall|i: int| 0 <= i < g.entities.len() implies (#[trigger] h.entities[i]).id
        == g.entities[i].id && match (g.entities[i].card_type, h.entities[i].card_type) {
        (CardTypeView::Monster(x), CardTypeView::Monster(y)) => x.hp <= x.max_hp ==> y.hp
            <= y.max_hp,
        (CardTypeView::Spell(_), CardTypeView::Spell(_)) => true,
        _ => false,
    } by {
        assert(h.entities[i] == refreshed_card(g.entities[i], s));
    }
    assert(form_kept(g, h));
    lemma_form_kept(g, h);
}

/// The cards stay named apart and nobody gains health beyond the cap: a
/// command given in a state in form leaves a state in form. So no two cards ever
/// share an id, no monster has more health than its greatest, and no hero more
/// than thirty.
pub proof fn law_command_keeps_form(g: GameView, c: Command)
    requires
        in_form(g),
    ensures
        in_form(command_result(g, c)),
{
    match c {
        Command::EndTurn { player } => {
            lemma_end_turn(Law::Form, g, player);
        },
        _ => {
            lemma_command_form(g, c);
        },
    }
}

/// The cards of a deal are numbered one after the other, and each has all its health.
pub proof fn lemma_dealt_form(
    deck: Seq<crate::collection::types::TemplateId>,
    collection: Seq<crate::collection::types::CardTemplateView>,
    owner: PlayerId,
    opponent: PlayerId,
    first_id: int,
)
    requires
        crate::game::dealt(deck, collection, owner, opponent, first_id) is Ok,
        0 <= first_id,
        first_id + deck.len() <= usize::MAX,
    ensures
        crate::game::dealt(deck, collection, owner, opponent, first_id)->Ok_0.len() == deck.len(),
        forall|i: int|
            0 <= i < deck.len() ==> (#[trigger] crate::game::dealt(
                deck,
                collection,
                owner,
                opponent,
                first_id,
            )->Ok_0[i]).id == first_id + i && match crate::game::dealt(
                deck,
                collection,
                owner,
                opponent,
                first_id,
            )->Ok_0[i].card_type {
                CardTypeView::Monster(m) => m.hp <= m.max_hp,
                CardTypeView::Spell(_) => true,
            },
    decreases deck.len(),
{
    if deck.len() > 0 {
        lemma_dealt_form(deck.drop_last(), collection, owner, opponent, first_id);
        let before = crate::game::dealt(deck.drop_last(), collection, owner, opponent, first_id)->Ok_0;
        let all = crate::game::dealt(deck, collection, owner, opponent, first_id)->Ok_0;
        assert forall|i: int| 0 <= i < deck.len() implies (#[trigger] all[i]).id == first_id + i
            && match all[i].card_type {
            CardTypeView::Monster(m) => m.hp <= m.max_hp,
            CardTypeView::Spell(_) => true,
        } by {
            if i < before.len() {
                assert(all[i] == before[i]);
            }
        }
    }
}

/// A game opens in form: the cards are numbered from two on, each has all its
/// health, and both heroes have thirty.
pub proof fn law_opening_in_form(
    game_id: u128,
    deck_a: Seq<crate::collection::types::TemplateId>,
    deck_b: Seq<crate::collection::types::TemplateId>,
    collection_a: Seq<crate::collection::types::CardTemplateView>,
    collection_b: Seq<crate::collection::types::CardTemplateView>,
    archetype_a: crate::collection::Archetype,
    archetype_b: crate::collection::Archetype,
    vs_ia: bool,
)
    requires
        crate::game::opening_cards(deck_a, deck_b, collection_a, collection_b) is Ok,
    ensures
        in_form(
            crate::game::opening(
                game_id,
                crate::game::opening_cards(deck_a, deck_b, collection_a, collection_b)->Ok_0,
                archetype_a,
                archetype_b,
                vs_ia,
            ),
        ),
{
    let cards = crate::game::opening_cards(deck_a, deck_b, collection_a, collection_b)->Ok_0;
    let g = crate::game::opening(game_id, cards, archetype_a, archetype_b, vs_ia);
    let a = crate::game::dealt(deck_a, collection_a, 0, 1, 2)->Ok_0;
    let b = crate::game::dealt(deck_b, collection_b, 1, 0, 2 + deck_a.len() as int)->Ok_0;
    lemma_dealt_form(deck_a, collection_a, 0, 1, 2);
    lemma_dealt_form(deck_b, collection_b, 1, 0, 2 + deck_a.len() as int);
    assert(cards == a + b);
    assert forall|i: int| 0 <= i < cards.len() implies (#[trigger] cards[i]).id == 2 + i
        && match cards[i].card_type {
        CardTypeView::Monster(m) => m.hp <= m.max_hp,
        CardTypeView::Spell(_) => true,
    } by {
        if i < a.len() {
            assert(cards[i] == a[i]);
        } else {
            assert(cards[i] == b[i - a.len()]);
        }
    }
    assert forall|i: int, j: int| 0 <= i < j < g.entities.len() implies (
    #[trigger] g.entities[i]).id != (#[trigger] g.entities[j]).id by {
        assert(cards[i].id == 2 + i);
        assert(cards[j].id == 2 + j);
    }
    assert forall|i: int| 0 <= i < g.entities.len() implies !crate::game::model::is_player(
        (#[trigger] g.entities[i]).id,
    ) by {
        assert(cards[i].id == 2 + i);
    }
}

/// Whether the command `c` is fair play in the state `g`: a player who plays a
/// monster plays one of their own.
pub open spec fn fair_play(g: GameView, c: Command) -> bool {
    match c {
        Command::PlayMonster { owner, card_id, .. } => entity_index(g.entities, card_id) is Some
            ==> g.entities[entity_index(g.entities, card_id)->0].owner == owner,
        _ => true,
    }
}

/// Whether some card of `g` with the id `id` belongs to `owner`.
pub open spec fn owned_by(g: GameView, id: InstanceId, owner: PlayerId) -> bool {
    exists|j: int|
        0 <= j < g.entities.len() && (#[trigger] g.entities[j]).id == id && g.entities[j].owner
            == owner
}

/// Same cards, and then same cards, is same cards.
proof fn lemma_same_cards_chain(g: GameView, h: GameView, k: GameView)
    requires
        same_cards(g, h),
        same_cards(h, k),
    ensures
        same_cards(g, k),
{
    assert forall|i: int| 0 <= i < g.entities.len() implies g.entities[i].owner == (
    #[trigger] k.entities[i]).owner && g.entities[i].id == k.entities[i].id by {
        assert(g.entities[i].owner == h.entities[i].owner);
    }
}

/// A command that is no end of turn leaves the same cards, under their ids and
/// with their owners.
proof fn lemma_command_same(g: GameView, c: Command)
    requires
        !(c is EndTurn),
    ensures
        same_cards(g, command_outcome(g, c).game),
{
    match c {
        Command::PlayMonster { owner, card_id, position, selected } => {
            if play_monster_check(g, owner, card_id, position, selected) is None {
                lemma_first_accepted_is_first(g.entities, Selector::WithId(card_id));
                lemma_player_index_is_first(g.players, owner);
            }
        },
        Command::PlaySpell { owner, card_id, selected } => {
            if play_spell_check(g, owner, card_id, selected) is None {
                lemma_first_accepted_is_first(g.entities, Selector::WithId(card_id));
                lemma_player_index_is_first(g.players, owner);
            }
        },
        Command::Attack { player, initiator, target } => {
            if attack_check(g, player, initiator, target) is None {
                lemma_first_accepted_is_first(g.entities, Selector::WithId(initiator));
            }
        },
        Command::Move { player, card_id, position } => {
            if move_check(g, player, card_id, position) is None {
                lemma_first_accepted_is_first(g.entities, Selector::WithId(card_id));
                lemma_player_index_is_first(g.players, player);
            }
        },
        Command::EndTurn { player } => {},
    }
}

/// Where the cards are named apart, to play a card that one owns is fair play,
/// also after other cards were played.
proof fn lemma_owned_fair(
    g: GameView,
    h: GameView,
    id: InstanceId,
    owner: PlayerId,
    position: usize,
    selected: Option<Seq<InstanceId>>,
)
    requires
        owned_by(g, id, owner),
        same_cards(g, h),
        in_form(h),
    ensures
        fair_play(h, Command::PlayMonster { owner, card_id: id, position, selected }),
{
    let j = choose|j: int|
        0 <= j < g.entities.len() && (#[trigger] g.entities[j]).id == id && g.entities[j].owner
            == owner;
    assert(h.entities[j].id == id && h.entities[j].owner == owner);
    if entity_index(h.entities, id) is Some {
        lemma_first_accepted_is_first(h.entities, Selector::WithId(id));
        let i = entity_index(h.entities, id)->0;
        if i < j {
            assert(h.entities[i].id != h.entities[j].id);
        }
        if j < i {
            assert(h.entities[j].id != h.entities[i].id);
        }
    }
}

/// The cards that the summon pass chooses belong to the player whose pass it is.
proof fn lemma_choice_owned(g: GameView, player_id: PlayerId, k: int)
    requires
        0 <= k < summon_choice(g, player_id).len(),
    ensures
        owned_by(g, summon_choice(g, player_id)[k], player_id),
{
    let sel = Selector::HandMonsterOf(player_id);
    let hand = select_cards(g.entities, sel);
    let options = crate::ia::summon::options_of(hand);
    let m = crate::ia::summon::planning_mana(
        g.players[player_index(g.players, player_id)->0].mana,
    ) as nat;
    let p = (7 - count(g.entities, Selector::FieldOf(player_id))) as nat;
    crate::ia::summon::lemma_chosen_from_options(options, options.len(), m, p, k);
    let j = choose|j: int|
        0 <= j < options.len() && (#[trigger] options[j]).1 == summon_choice(g, player_id)[k];
    crate::game::model::lemma_select_len(g.entities, sel);
    assert(options[j].1 == hand[j].id);
    assert(crate::game::model::select_ids(g.entities, sel)[j] == hand[j].id);
    assert(crate::game::model::select_ids(g.entities, sel).contains(hand[j].id));
    crate::ia::attack::lemma_selected_is_accepted(g, sel, hand[j].id);
}

/// A command that is no end of turn and is fair play leaves the slots apart.
proof fn lemma_command_slots(g: GameView, c: Command)
    requires
        !(c is EndTurn),
        slots_apart(g),
        fair_play(g, c),
    ensures
        slots_apart(command_outcome(g, c).game),
{
    let h = command_outcome(g, c).game;
    match c {
        Command::PlayMonster { owner, card_id, position, selected } => {
            if play_monster_check(g, owner, card_id, position, selected) is None {
                lemma_first_accepted_is_first(g.entities, Selector::WithId(card_id));
                lemma_player_index_is_first(g.players, owner);
                let k = entity_index(g.entities, card_id)->0;
                assert forall|i: int, j: int|
                    0 <= i < j < h.entities.len() && (#[trigger] h.entities[i]).owner == (
                    #[trigger] h.entities[j]).owner && h.entities[i].location is Field implies h.entities[i].location
                    != h.entities[j].location by {
                    if i != k && j != k {
                        assert(h.entities[i] == g.entities[i]);
                        assert(h.entities[j] == g.entities[j]);
                    } else if i == k {
                        assert(h.entities[j] == g.entities[j]);
                        assert(!Selector::SlotOf(owner, position).accepts(g.entities[j]));
                    } else {
                        assert(h.entities[i] == g.entities[i]);
                        assert(!Selector::SlotOf(owner, position).accepts(g.entities[i]));
                    }
                }
            }
        },
        Command::PlaySpell { owner, card_id, selected } => {
            if play_spell_check(g, owner, card_id, selected) is None {
                lemma_first_accepted_is_first(g.entities, Selector::WithId(card_id));
                lemma_player_index_is_first(g.players, owner);
                assert(places_kept(g, h));
                lemma_places_kept(g, h);
            }
        },
        Command::Attack { player, initiator, target } => {
            if attack_check(g, player, initiator, target) is None {
                lemma_first_accepted_is_first(g.entities, Selector::WithId(initiator));
                assert(places_kept(g, h));
                lemma_places_kept(g, h);
            }
        },
        Command::Move { player, card_id, position } => {
            if move_check(g, player, card_id, position) is None {
                lemma_first_accepted_is_first(g.entities, Selector::WithId(card_id));
                lemma_player_index_is_first(g.players, player);
                let k = entity_index(g.entities, card_id)->0;
                let owner = g.entities[k].owner;
                assert forall|i: int, j: int|
                    0 <= i < j < h.entities.len() && (#[trigger] h.entities[i]).owner == (
                    #[trigger] h.entities[j]).owner && h.entities[i].location is Field implies h.entities[i].location
                    != h.entities[j].location by {
                    if i != k && j != k {
                        assert(h.entities[i] == g.entities[i]);
                        assert(h.entities[j] == g.entities[j]);
                    } else if i == k {
                        assert(h.entities[j] == g.entities[j]);
                        assert(!Selector::SlotOf(owner, position).accepts(g.entities[j]));
                    } else {
                        assert(h.entities[i] == g.entities[i]);
                        assert(!Selector::SlotOf(owner, position).accepts(g.entities[i]));
                    }
                }
            }
        },
        Command::EndTurn { player } => {},
    }
}

/// The start of a turn leaves every card at its place.
proof fn lemma_turn_start_slots(g: GameView, ending_player: PlayerId)
    requires
        turn_start(g, ending_player) is Ok,
        slots_apart(g),
    ensures
        slots_apart(turn_start(g, ending_player)->Ok_0),
{
    let h = turn_start(g, ending_player)->Ok_0;
    let s = opponent_of(g.players, ending_player)->0;
    assert forall|i: int| 0 <= i < g.entities.len() implies (#[trigger] h.entities[i]).owner
        == g.entities[i].owner && (h.entities[i].location == g.entities[i].location || !(
    h.entities[i].location is Field)) by {
        assert(h.entities[i] == refreshed_card(g.entities[i], s));
    }
    assert(places_kept(g, h));
    lemma_places_kept(g, h);
}

/// No player ever has two cards on one slot of the field: a command given in
/// fair play, in a state in form with the slots apart and no effect that lands
/// a card of the hand by itself, leaves such a state.
pub proof fn law_command_keeps_slots(g: GameView, c: Command)
    requires
        slots_apart(g),
        free_of(g, Kind::Landing),
        in_form(g),
        fair_play(g, c),
    ensures
        slots_apart(command_result(g, c)),
        free_of(command_result(g, c), Kind::Landing),
        in_form(command_result(g, c)),
{
    match c {
        Command::EndTurn { player } => {
            lemma_end_turn(Law::Slots, g, player);
        },
        _ => {
            lemma_law_command(Law::Slots, g, c);
        },
    }
}

} // verus!
