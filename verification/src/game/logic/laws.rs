//! What holds of the engine whatever the cards are.
//!
//! The laws here are proved from the definitions of the steps in [`super::ops`]
//! and of the drain in [`crate::game`]. They are stated over the states that
//! the engine passes through, failures included: an effect that fails half-way
//! still leaves a state of which the laws hold.

use crate::collection::types::{bind_all, CardTemplateView, TemplateEffectView};
use crate::game::card::{CardTypeView, CardView};
use crate::game::effects::{EffectView, PlayerTarget, TargetView};
use crate::game::logic::ops::{
    apply_all, apply_op, boost, damage_entity, damage_player, destroy, draw_many, draw_one,
    heal_entity, heal_player, increase_max_mana, refresh_mana, strike, then_all, OpView,
};
use crate::game::logic::summon::summon_step;
use crate::game::logic::{
    effect_outcome, resolved_field, resolved_player_only, resolved_player_target, resolved_target,
    summon_from_hand,
};
use crate::game::model::{
    entity_index, first_accepted, is_first, is_player, lemma_first_accepted,
    lemma_first_accepted_is_first, lemma_player_index_is_first, player_index, start, GameView,
    Outcome, Selector,
};
use crate::game::types::{InstanceId, Location, PlayerId};
use crate::game::drain;
use vstd::prelude::*;

verus! {

/// Whether the card `b` is a later state of the card `a`: the same card of the
/// same owner, with the same keywords and effects, and as many attacks used.
/// Place, health, attack and sleep may differ.
pub open spec fn same_card(a: CardView, b: CardView) -> bool {
    &&& a.id == b.id
    &&& a.owner == b.owner
    &&& a.cost == b.cost
    &&& a.play_target == b.play_target
    &&& match (a.card_type, b.card_type) {
        (CardTypeView::Monster(x), CardTypeView::Monster(y)) => {
            &&& x.keywords == y.keywords
            &&& x.attack_count == y.attack_count
            &&& x.on_play == y.on_play
            &&& x.on_attack == y.on_attack
            &&& x.on_death == y.on_death
        },
        (CardTypeView::Spell(x), CardTypeView::Spell(y)) => x.effect == y.effect,
        _ => false,
    }
}

/// Whether the card `c` is as a summon makes it: a monster bound to its own id
/// that has not attacked yet, made from the template `t`.
pub open spec fn summoned_card(c: CardView) -> bool {
    exists|t: CardTemplateView, owner: PlayerId, opponent: PlayerId|
        {
            &&& t.card_type is Monster
            &&& same_card(#[trigger] t.instantiate(c.id, owner, opponent), c)
        }
}

/// Whether the state `h` can follow the state `g` in the course of an effect:
/// every card of `g` is still there, at its place in the order, and what is new
/// in `h` was summoned. The players are the same ones.
pub open spec fn follows(g: GameView, h: GameView) -> bool {
    &&& g.entities.len() <= h.entities.len()
    &&& forall|i: int| 0 <= i < g.entities.len() ==> same_card(g.entities[i], #[trigger] h.entities[i])
    &&& forall|i: int|
        g.entities.len() <= i < h.entities.len() ==> summoned_card(#[trigger] h.entities[i])
    &&& g.players.len() == h.players.len()
    &&& forall|i: int|
        0 <= i < g.players.len() ==> g.players[i].player_id == (#[trigger] h.players[i]).player_id
    &&& g.game_id == h.game_id
    &&& g.player_id_a == h.player_id_a
    &&& g.player_id_b == h.player_id_b
    &&& g.turn == h.turn
    &&& g.current_player == h.current_player
    &&& g.vs_ia == h.vs_ia
}

/// What follows a state that follows `g` follows `g`.
pub proof fn lemma_follows_chain(g: GameView, h: GameView, k: GameView)
    requires
        follows(g, h),
        follows(h, k),
    ensures
        follows(g, k),
{
    assert forall|i: int| 0 <= i < g.entities.len() implies same_card(
        g.entities[i],
        #[trigger] k.entities[i],
    ) by {
        assert(same_card(g.entities[i], h.entities[i]));
        assert(same_card(h.entities[i], k.entities[i]));
    }
    assert forall|i: int| g.entities.len() <= i < k.entities.len() implies summoned_card(
        #[trigger] k.entities[i],
    ) by {
        if i < h.entities.len() {
            assert(summoned_card(h.entities[i]));
            assert(same_card(h.entities[i], k.entities[i]));
            let (t, owner, opponent) = choose|
                t: CardTemplateView,
                owner: PlayerId,
                opponent: PlayerId,
            |
                {
                    &&& t.card_type is Monster
                    &&& same_card(#[trigger] t.instantiate(h.entities[i].id, owner, opponent), h.entities[i])
                };
            assert(same_card(t.instantiate(k.entities[i].id, owner, opponent), k.entities[i]));
        }
    }
    assert forall|i: int| 0 <= i < g.players.len() implies g.players[i].player_id == (
    #[trigger] k.players[i]).player_id by {
        assert(g.players[i].player_id == h.players[i].player_id);
    }
}

/// The place of a card does not change in a state that follows.
pub proof fn lemma_follows_index(g: GameView, h: GameView, id: InstanceId)
    requires
        follows(g, h),
        entity_index(g.entities, id) is Some,
    ensures
        entity_index(h.entities, id) == entity_index(g.entities, id),
{
    lemma_first_accepted_is_first(g.entities, Selector::WithId(id));
    let i = entity_index(g.entities, id)->0;
    assert(is_first(h.entities, Selector::WithId(id), i)) by {
        assert(same_card(g.entities[i], h.entities[i]));
        assert forall|j: int| 0 <= j < i implies !Selector::WithId(id).accepts(
            #[trigger] h.entities[j],
        ) by {
            assert(same_card(g.entities[j], h.entities[j]));
            assert(!Selector::WithId(id).accepts(g.entities[j]));
        }
    }
    lemma_first_accepted(h.entities, Selector::WithId(id), i);
}

/// One draw leads to a state that follows.
pub proof fn lemma_draw_one_follows(o: Outcome, p: PlayerId)
    ensures
        follows(o.game, draw_one(o, p).game),
{
    reveal(draw_one);
    if o.fault is None {
        if first_accepted(o.game.entities, Selector::DeckOf(p)) is Some {
            lemma_first_accepted_is_first(o.game.entities, Selector::DeckOf(p));
        }
    }
}

/// Draws lead to a state that follows.
pub proof fn lemma_draw_many_follows(o: Outcome, p: PlayerId, n: nat)
    ensures
        follows(o.game, draw_many(o, p, n).game),
    decreases n,
{
    if n > 0 {
        lemma_draw_many_follows(o, p, (n - 1) as nat);
        lemma_draw_one_follows(draw_many(o, p, (n - 1) as nat), p);
        lemma_follows_chain(
            o.game,
            draw_many(o, p, (n - 1) as nat).game,
            draw_many(o, p, n).game,
        );
    }
}

/// A step on an entity leads to a state that follows.
proof fn lemma_entity_steps_follow(o: Outcome, op: OpView, t: usize)
    requires
        op is DamageEntity || op is Destroy || op is HealEntity || op is Boost || op is Strike,
    ensures
        follows(o.game, apply_op(o, op, t).game),
{
    reveal(apply_op);
    reveal(damage_entity);
    reveal(destroy);
    reveal(heal_entity);
    reveal(boost);
    reveal(strike);
    if o.fault is None {
        if entity_index(o.game.entities, t) is Some {
            lemma_first_accepted_is_first(o.game.entities, Selector::WithId(t));
        }
    }
}

/// A step on a player leads to a state that follows.
proof fn lemma_player_steps_follow(o: Outcome, op: OpView, t: usize)
    requires
        op is DamagePlayer || op is HealPlayer || op is IncreaseMaxMana || op is RefreshMana,
    ensures
        follows(o.game, apply_op(o, op, t).game),
{
    reveal(apply_op);
    reveal(damage_player);
    reveal(heal_player);
    reveal(increase_max_mana);
    reveal(refresh_mana);
    if o.fault is None {
        if player_index(o.game.players, t) is Some {
            lemma_player_index_is_first(o.game.players, t);
        }
    }
}

/// A summon leads to a state that follows.
proof fn lemma_summon_follows(o: Outcome, t: PlayerId, template: CardTemplateView)
    ensures
        follows(o.game, summon_step(o, t, template).game),
{
    reveal(summon_step);
    let after = summon_step(o, t, template).game;
    if after != o.game {
        let n = o.game.entities.len() as int;
        assert(after.entities.len() == n + 1);
        let c = after.entities[n];
        let q = crate::game::model::opponent_of(o.game.players, t)->0;
        assert(same_card(template.instantiate(c.id, t, q), c));
        assert(summoned_card(c));
        assert forall|i: int| n <= i < after.entities.len() implies summoned_card(
            #[trigger] after.entities[i],
        ) by {
            assert(i == n);
        }
    }
}

/// Every step leads to a state that follows.
pub proof fn lemma_step_follows(o: Outcome, op: OpView, t: usize)
    ensures
        follows(o.game, apply_op(o, op, t).game),
{
    match op {
        OpView::DamagePlayer { .. } => lemma_player_steps_follow(o, op, t),
        OpView::HealPlayer { .. } => lemma_player_steps_follow(o, op, t),
        OpView::IncreaseMaxMana { .. } => lemma_player_steps_follow(o, op, t),
        OpView::RefreshMana { .. } => lemma_player_steps_follow(o, op, t),
        OpView::DamageEntity { .. } => lemma_entity_steps_follow(o, op, t),
        OpView::Destroy => lemma_entity_steps_follow(o, op, t),
        OpView::HealEntity { .. } => lemma_entity_steps_follow(o, op, t),
        OpView::Boost { .. } => lemma_entity_steps_follow(o, op, t),
        OpView::Strike { .. } => lemma_entity_steps_follow(o, op, t),
        OpView::Draw { amount } => {
            reveal(apply_op);
            lemma_draw_many_follows(o, t, amount as nat);
        },
        OpView::Summon { template } => {
            reveal(apply_op);
            lemma_summon_follows(o, t, template);
        },
    }
}

/// Steps on all recipients lead to a state that follows.
pub proof fn lemma_all_follow(o: Outcome, op: OpView, ts: Seq<usize>)
    ensures
        follows(o.game, apply_all(o, op, ts).game),
    decreases ts.len(),
{
    if ts.len() > 0 {
        let before = apply_all(o, op, ts.drop_last());
        lemma_all_follow(o, op, ts.drop_last());
        lemma_step_follows(before, op, ts.last());
        lemma_follows_chain(o.game, before.game, apply_all(o, op, ts).game);
    }
}

/// Resolution and the steps after it lead to a state that follows.
pub proof fn lemma_then_all_follows(
    o: Outcome,
    op: OpView,
    ts: std::result::Result<Seq<usize>, crate::error::Fault>,
)
    ensures
        follows(o.game, then_all(o, op, ts).game),
{
    if o.fault is None && ts is Ok {
        lemma_all_follow(o, op, ts->Ok_0);
    }
}

/// Every effect leads to a state that follows, but for the winner that it may declare.
pub proof fn lemma_effect_follows(g: GameView, e: EffectView)
    ensures
        follows(g, GameView { winner_id: g.winner_id, ..effect_outcome(g, e).game }),
        !(e is Win) ==> follows(g, effect_outcome(g, e).game),
{
    reveal(effect_outcome);
    match e {
        EffectView::MakeDraw { initiator, player, amount } => {
            lemma_then_all_follows(
                start(g),
                OpView::Draw { amount },
                resolved_player_target(g, initiator, player),
            );
        },
        EffectView::AutoDraw { player, amount } => {
            lemma_draw_many_follows(start(g), player, amount as nat);
        },
        EffectView::DealDamage { initiator, target, amount } => {
            let o1 = then_all(
                start(g),
                OpView::DamagePlayer { amount },
                resolved_player_only(g, initiator, target),
            );
            lemma_then_all_follows(
                start(g),
                OpView::DamagePlayer { amount },
                resolved_player_only(g, initiator, target),
            );
            lemma_then_all_follows(
                o1,
                OpView::DamageEntity { initiator, amount },
                resolved_field(o1.game, initiator, target),
            );
            lemma_follows_chain(g, o1.game, effect_outcome(g, e).game);
        },
        EffectView::Destroy { initiator, target } => {
            lemma_then_all_follows(
                start(g),
                OpView::Destroy,
                resolved_field(g, initiator, target),
            );
        },
        EffectView::Heal { initiator, target, amount } => {
            let o1 = then_all(
                start(g),
                OpView::HealPlayer { amount },
                resolved_player_only(g, initiator, target),
            );
            lemma_then_all_follows(
                start(g),
                OpView::HealPlayer { amount },
                resolved_player_only(g, initiator, target),
            );
            lemma_then_all_follows(
                o1,
                OpView::HealEntity { amount },
                resolved_field(o1.game, initiator, target),
            );
            lemma_follows_chain(g, o1.game, effect_outcome(g, e).game);
        },
        EffectView::Attack { initiator, target } => {
            lemma_then_all_follows(
                start(g),
                OpView::Strike { initiator },
                resolved_target(g, initiator, target),
            );
        },
        EffectView::Boost { initiator, attack, hp, target } => {
            lemma_then_all_follows(
                start(g),
                OpView::Boost { attack, hp },
                resolved_field(g, initiator, target),
            );
        },
        EffectView::IncreaseMaxMana { initiator, player, amount } => {
            lemma_then_all_follows(
                start(g),
                OpView::IncreaseMaxMana { amount },
                resolved_player_target(g, initiator, player),
            );
        },
        EffectView::RefreshMana { initiator, player, amount } => {
            lemma_then_all_follows(
                start(g),
                OpView::RefreshMana { amount },
                resolved_player_target(g, initiator, player),
            );
        },
        EffectView::Summon { initiator, side, target } => {
            lemma_then_all_follows(
                start(g),
                OpView::Summon { template: target },
                resolved_player_target(g, initiator, side),
            );
        },
        EffectView::SummonFromHand { entity_id, position } => {
            reveal(summon_from_hand);
            if entity_index(g.entities, entity_id) is Some {
                lemma_first_accepted_is_first(g.entities, Selector::WithId(entity_id));
            }
        },
        EffectView::Win(player) => {},
    }
}

/// Draining the queue leads to a state that follows, but for the winner that it may declare.
pub proof fn lemma_drain_follows(g: GameView, fuel: nat)
    ensures
        follows(g, GameView { winner_id: g.winner_id, ..drain(g, fuel).game }),
    decreases fuel,
{
    if g.effect_queue.len() > 0 && fuel > 0 {
        let o = effect_outcome(g.dequeued(), g.effect_queue[0]);
        lemma_effect_follows(g.dequeued(), g.effect_queue[0]);
        let g1 = GameView { winner_id: g.winner_id, ..o.game };
        assert(follows(g, g1));
        if o.fault is None {
            lemma_drain_follows(o.game, (fuel - 1) as nat);
            let d = drain(o.game, (fuel - 1) as nat).game;
            let g2 = GameView { winner_id: o.game.winner_id, ..d };
            assert(follows(o.game, g2));
            assert(follows(g1, GameView { winner_id: g.winner_id, ..d }));
            lemma_follows_chain(g, g1, GameView { winner_id: g.winner_id, ..d });
        }
    }
}

/// A kind of effect that a law may have to rule out.
pub enum Kind {
    /// Effects that bring new cards into the game.
    Summon,
    /// Effects that grow a player's base mana.
    Growth,
    /// Effects that put a card on a slot of the field without asking whether it is free.
    Landing,
}

/// Whether the effect `e` is not of the kind `k`.
pub open spec fn avoids(e: EffectView, k: Kind) -> bool {
    match k {
        Kind::Summon => !(e is Summon),
        Kind::Growth => !(e is IncreaseMaxMana),
        Kind::Landing => !(e is SummonFromHand),
    }
}

/// Whether none of `es` is of the kind `k`.
pub open spec fn all_avoid(es: Seq<EffectView>, k: Kind) -> bool {
    forall|i: int| 0 <= i < es.len() ==> avoids(#[trigger] es[i], k)
}

/// Whether no effect that the card `c` carries is of the kind `k`.
pub open spec fn card_free(c: CardView, k: Kind) -> bool {
    match c.card_type {
        CardTypeView::Monster(m) => all_avoid(m.on_play, k) && all_avoid(m.on_attack, k)
            && all_avoid(m.on_death, k),
        CardTypeView::Spell(s) => all_avoid(s.effect, k),
    }
}

/// Whether no effect that a card of `g` carries is of the kind `k`.
pub open spec fn cards_free(g: GameView, k: Kind) -> bool {
    forall|i: int| 0 <= i < g.entities.len() ==> card_free(#[trigger] g.entities[i], k)
}

/// Whether the queue `q2` is the queue `q` with effects added at the back, none of the kind `k`.
pub open spec fn grows_by(q: Seq<EffectView>, q2: Seq<EffectView>, k: Kind) -> bool {
    &&& q.len() <= q2.len()
    &&& forall|i: int| 0 <= i < q.len() ==> q[i] == #[trigger] q2[i]
    &&& forall|i: int| q.len() <= i < q2.len() ==> avoids(#[trigger] q2[i], k)
}

/// Whether the state `g` is free of the kind `k`: in the queue and on the cards.
pub open spec fn free_of(g: GameView, k: Kind) -> bool {
    cards_free(g, k) && all_avoid(g.effect_queue, k)
}

/// Binding never gives an effect that grows the base mana, nor one that
/// lands a card of the hand.
pub proof fn lemma_bind_avoids_growth(effects: Seq<TemplateEffectView>, id: InstanceId)
    ensures
        all_avoid(bind_all(effects, id), Kind::Growth),
        all_avoid(bind_all(effects, id), Kind::Landing),
{
    assert forall|i: int| 0 <= i < bind_all(effects, id).len() implies avoids(
        #[trigger] bind_all(effects, id)[i],
        Kind::Growth,
    ) && avoids(bind_all(effects, id)[i], Kind::Landing) by {
        assert(bind_all(effects, id)[i] == effects[i].bind(id));
    }
}

/// A summoned card carries no effect that grows the base mana, nor one that
/// lands a card of the hand.
pub proof fn lemma_summoned_card_free(c: CardView)
    requires
        summoned_card(c),
    ensures
        card_free(c, Kind::Growth),
        card_free(c, Kind::Landing),
{
    let (t, owner, opponent) = choose|t: CardTemplateView, owner: PlayerId, opponent: PlayerId|
        {
            &&& t.card_type is Monster
            &&& same_card(#[trigger] t.instantiate(c.id, owner, opponent), c)
        };
    let m = t.card_type->Monster_0;
    lemma_bind_avoids_growth(m.on_play, c.id);
    lemma_bind_avoids_growth(m.on_attack, c.id);
    lemma_bind_avoids_growth(m.on_death, c.id);
}

/// The cards of a state that follows are free of a kind of which the cards
/// were free, where no card came new or the kind is growth.
pub proof fn lemma_follows_cards_free(g: GameView, h: GameView, k: Kind)
    requires
        follows(g, h),
        cards_free(g, k),
        k is Summon ==> h.entities.len() == g.entities.len(),
    ensures
        cards_free(h, k),
{
    assert forall|i: int| 0 <= i < h.entities.len() implies card_free(
        #[trigger] h.entities[i],
        k,
    ) by {
        if i < g.entities.len() {
            assert(same_card(g.entities[i], h.entities[i]));
            assert(card_free(g.entities[i], k));
        } else {
            assert(summoned_card(h.entities[i]));
            lemma_summoned_card_free(h.entities[i]);
        }
    }
}

/// Growth upon growth is growth.
pub proof fn lemma_grows_by_chain(
    q: Seq<EffectView>,
    q2: Seq<EffectView>,
    q3: Seq<EffectView>,
    k: Kind,
)
    requires
        grows_by(q, q2, k),
        grows_by(q2, q3, k),
    ensures
        grows_by(q, q3, k),
{
    assert forall|i: int| 0 <= i < q.len() implies q[i] == #[trigger] q3[i] by {
        assert(q[i] == q2[i]);
    }
    assert forall|i: int| q.len() <= i < q3.len() implies avoids(#[trigger] q3[i], k) by {
        if i < q2.len() {
            assert(avoids(q2[i], k));
            assert(q2[i] == q3[i]);
        }
    }
}

/// What one draw does to the queue and to the number of cards: nothing.
proof fn lemma_draw_one_queue(o: Outcome, p: PlayerId)
    ensures
        draw_one(o, p).game.effect_queue == o.game.effect_queue,
        draw_one(o, p).game.entities.len() == o.game.entities.len(),
        draw_one(o, p).game.players == o.game.players,
{
    reveal(draw_one);
    if o.fault is None {
        if first_accepted(o.game.entities, Selector::DeckOf(p)) is Some {
            lemma_first_accepted_is_first(o.game.entities, Selector::DeckOf(p));
        }
    }
}

/// What draws do to the queue and to the number of cards: nothing.
pub proof fn lemma_draw_many_queue(o: Outcome, p: PlayerId, n: nat)
    ensures
        draw_many(o, p, n).game.effect_queue == o.game.effect_queue,
        draw_many(o, p, n).game.entities.len() == o.game.entities.len(),
        draw_many(o, p, n).game.players == o.game.players,
    decreases n,
{
    if n > 0 {
        lemma_draw_many_queue(o, p, (n - 1) as nat);
        lemma_draw_one_queue(draw_many(o, p, (n - 1) as nat), p);
    }
}

/// What a step adds to the queue comes from the cards or from the engine
/// itself, which makes neither summons nor growth; and only a summon adds a card.
pub proof fn lemma_step_queue(o: Outcome, op: OpView, t: usize, k: Kind)
    requires
        cards_free(o.game, k),
        k is Summon ==> !(op is Summon),
    ensures
        grows_by(o.game.effect_queue, apply_op(o, op, t).game.effect_queue, k),
        !(op is Summon) ==> apply_op(o, op, t).game.entities.len() == o.game.entities.len(),
{
    reveal(apply_op);
    let after = apply_op(o, op, t).game;
    if o.fault is None {
        match op {
            OpView::DamagePlayer { .. } => {
                reveal(damage_player);
            },
            OpView::HealPlayer { .. } => {
                reveal(heal_player);
            },
            OpView::IncreaseMaxMana { .. } => {
                reveal(increase_max_mana);
            },
            OpView::RefreshMana { .. } => {
                reveal(refresh_mana);
            },
            OpView::DamageEntity { .. } => {
                reveal(damage_entity);
                if entity_index(o.game.entities, t) is Some {
                    lemma_first_accepted_is_first(o.game.entities, Selector::WithId(t));
                }
            },
            OpView::HealEntity { .. } => {
                reveal(heal_entity);
                if entity_index(o.game.entities, t) is Some {
                    lemma_first_accepted_is_first(o.game.entities, Selector::WithId(t));
                }
            },
            OpView::Boost { .. } => {
                reveal(boost);
                if entity_index(o.game.entities, t) is Some {
                    lemma_first_accepted_is_first(o.game.entities, Selector::WithId(t));
                }
            },
            OpView::Destroy => {
                reveal(destroy);
                if entity_index(o.game.entities, t) is Some {
                    lemma_first_accepted_is_first(o.game.entities, Selector::WithId(t));
                    let i = entity_index(o.game.entities, t)->0;
                    assert(card_free(o.game.entities[i], k));
                }
            },
            OpView::Strike { initiator } => {
                reveal(strike);
                if entity_index(o.game.entities, initiator) is Some {
                    lemma_first_accepted_is_first(o.game.entities, Selector::WithId(initiator));
                    let i = entity_index(o.game.entities, initiator)->0;
                    assert(card_free(o.game.entities[i], k));
                }
            },
            OpView::Draw { amount } => {
                lemma_draw_many_queue(o, t, amount as nat);
            },
            OpView::Summon { template } => {
                reveal(summon_step);
                if after != o.game {
                    let m = template.card_type->Monster_0;
                    let id = crate::game::logic::summon::fresh_id(o.game.entities)->0;
                    lemma_bind_avoids_growth(m.on_play, id);
                }
            },
        }
    }
}

/// What steps on all recipients add to the queue, and that only summons add cards.
pub proof fn lemma_all_queue(o: Outcome, op: OpView, ts: Seq<usize>, k: Kind)
    requires
        cards_free(o.game, k),
        k is Summon ==> !(op is Summon),
    ensures
        grows_by(o.game.effect_queue, apply_all(o, op, ts).game.effect_queue, k),
        cards_free(apply_all(o, op, ts).game, k),
        !(op is Summon) ==> apply_all(o, op, ts).game.entities.len() == o.game.entities.len(),
    decreases ts.len(),
{
    lemma_all_follow(o, op, ts);
    if ts.len() > 0 {
        let before = apply_all(o, op, ts.drop_last());
        lemma_all_queue(o, op, ts.drop_last(), k);
        lemma_step_queue(before, op, ts.last(), k);
        lemma_grows_by_chain(
            o.game.effect_queue,
            before.game.effect_queue,
            apply_all(o, op, ts).game.effect_queue,
            k,
        );
    }
    lemma_follows_cards_free(o.game, apply_all(o, op, ts).game, k);
}

/// The same of resolution and the steps after it.
pub proof fn lemma_then_all_queue(
    o: Outcome,
    op: OpView,
    ts: std::result::Result<Seq<usize>, crate::error::Fault>,
    k: Kind,
)
    requires
        cards_free(o.game, k),
        k is Summon ==> !(op is Summon),
    ensures
        grows_by(o.game.effect_queue, then_all(o, op, ts).game.effect_queue, k),
        cards_free(then_all(o, op, ts).game, k),
        !(op is Summon) ==> then_all(o, op, ts).game.entities.len() == o.game.entities.len(),
{
    if o.fault is None && ts is Ok {
        lemma_all_queue(o, op, ts->Ok_0, k);
    }
}

/// What an effect adds to the queue comes from the cards or from the engine
/// itself; and only a summon adds a card.
pub proof fn lemma_effect_queue(g: GameView, e: EffectView, k: Kind)
    requires
        cards_free(g, k),
        k is Summon ==> !(e is Summon),
    ensures
        grows_by(g.effect_queue, effect_outcome(g, e).game.effect_queue, k),
        cards_free(effect_outcome(g, e).game, k),
        !(e is Summon) ==> effect_outcome(g, e).game.entities.len() == g.entities.len(),
{
    reveal(effect_outcome);
    match e {
        EffectView::MakeDraw { initiator, player, amount } => {
            lemma_then_all_queue(
                start(g),
                OpView::Draw { amount },
                resolved_player_target(g, initiator, player),
                k,
            );
        },
        EffectView::AutoDraw { player, amount } => {
            lemma_draw_many_queue(start(g), player, amount as nat);
            lemma_draw_many_follows(start(g), player, amount as nat);
            lemma_follows_cards_free(g, effect_outcome(g, e).game, k);
        },
        EffectView::DealDamage { initiator, target, amount } => {
            let o1 = then_all(
                start(g),
                OpView::DamagePlayer { amount },
                resolved_player_only(g, initiator, target),
            );
            lemma_then_all_queue(
                start(g),
                OpView::DamagePlayer { amount },
                resolved_player_only(g, initiator, target),
                k,
            );
            lemma_then_all_queue(
                o1,
                OpView::DamageEntity { initiator, amount },
                resolved_field(o1.game, initiator, target),
                k,
            );
            lemma_grows_by_chain(
                g.effect_queue,
                o1.game.effect_queue,
                effect_outcome(g, e).game.effect_queue,
                k,
            );
        },
        EffectView::Destroy { initiator, target } => {
            lemma_then_all_queue(start(g), OpView::Destroy, resolved_field(g, initiator, target), k);
        },
        EffectView::Heal { initiator, target, amount } => {
            let o1 = then_all(
                start(g),
                OpView::HealPlayer { amount },
                resolved_player_only(g, initiator, target),
            );
            lemma_then_all_queue(
                start(g),
                OpView::HealPlayer { amount },
                resolved_player_only(g, initiator, target),
                k,
            );
            lemma_then_all_queue(
                o1,
                OpView::HealEntity { amount },
                resolved_field(o1.game, initiator, target),
                k,
            );
            lemma_grows_by_chain(
                g.effect_queue,
                o1.game.effect_queue,
                effect_outcome(g, e).game.effect_queue,
                k,
            );
        },
        EffectView::Attack { initiator, target } => {
            lemma_then_all_queue(
                start(g),
                OpView::Strike { initiator },
                resolved_target(g, initiator, target),
                k,
            );
        },
        EffectView::Boost { initiator, attack, hp, target } => {
            lemma_then_all_queue(
                start(g),
                OpView::Boost { attack, hp },
                resolved_field(g, initiator, target),
                k,
            );
        },
        EffectView::IncreaseMaxMana { initiator, player, amount } => {
            lemma_then_all_queue(
                start(g),
                OpView::IncreaseMaxMana { amount },
                resolved_player_target(g, initiator, player),
                k,
            );
        },
        EffectView::RefreshMana { initiator, player, amount } => {
            lemma_then_all_queue(
                start(g),
                OpView::RefreshMana { amount },
                resolved_player_target(g, initiator, player),
                k,
            );
        },
        EffectView::Summon { initiator, side, target } => {
            lemma_then_all_queue(
                start(g),
                OpView::Summon { template: target },
                resolved_player_target(g, initiator, side),
                k,
            );
        },
        EffectView::SummonFromHand { entity_id, position } => {
            reveal(summon_from_hand);
            lemma_effect_follows(g, e);
            if entity_index(g.entities, entity_id) is Some {
                lemma_first_accepted_is_first(g.entities, Selector::WithId(entity_id));
                let i = entity_index(g.entities, entity_id)->0;
                assert(card_free(g.entities[i], k));
            }
            lemma_follows_cards_free(g, effect_outcome(g, e).game, k);
        },
        EffectView::Win(player) => {
            assert(cards_free(effect_outcome(g, e).game, k)) by {
                assert(effect_outcome(g, e).game.entities == g.entities);
            }
        },
    }
}

/// A state free of a kind stays free of it while the queue is drained; and
/// where it is free of summons, no card comes new.
pub proof fn lemma_drain_free(g: GameView, fuel: nat, k: Kind)
    requires
        free_of(g, k),
    ensures
        free_of(drain(g, fuel).game, k),
        k is Summon ==> drain(g, fuel).game.entities.len() == g.entities.len(),
    decreases fuel,
{
    if g.effect_queue.len() > 0 && fuel > 0 {
        let e = g.effect_queue[0];
        let g1 = g.dequeued();
        assert(cards_free(g1, k)) by {
            assert(g1.entities == g.entities);
        }
        assert(avoids(e, k));
        assert(all_avoid(g1.effect_queue, k)) by {
            assert forall|i: int| 0 <= i < g1.effect_queue.len() implies avoids(
                #[trigger] g1.effect_queue[i],
                k,
            ) by {
                assert(g1.effect_queue[i] == g.effect_queue[i + 1]);
            }
        }
        let o = effect_outcome(g1, e);
        match k {
            Kind::Summon => {
                assert(!(e is Summon));
            },
            _ => {},
        }
        lemma_effect_queue(g1, e, k);
        assert(all_avoid(o.game.effect_queue, k)) by {
            assert forall|i: int| 0 <= i < o.game.effect_queue.len() implies avoids(
                #[trigger] o.game.effect_queue[i],
                k,
            ) by {
                if i < g1.effect_queue.len() {
                    assert(g1.effect_queue[i] == o.game.effect_queue[i]);
                }
            }
        }
        if o.fault is None {
            lemma_drain_free(o.game, (fuel - 1) as nat, k);
        }
    }
}

/// What a step that is no summon leaves: as many cards as there were.
proof fn lemma_step_count(o: Outcome, op: OpView, t: usize)
    requires
        !(op is Summon),
    ensures
        apply_op(o, op, t).game.entities.len() == o.game.entities.len(),
{
    reveal(apply_op);
    if o.fault is None {
        match op {
            OpView::DamagePlayer { .. } => {
                reveal(damage_player);
            },
            OpView::HealPlayer { .. } => {
                reveal(heal_player);
            },
            OpView::IncreaseMaxMana { .. } => {
                reveal(increase_max_mana);
            },
            OpView::RefreshMana { .. } => {
                reveal(refresh_mana);
            },
            OpView::DamageEntity { .. } => {
                reveal(damage_entity);
                if entity_index(o.game.entities, t) is Some {
                    lemma_first_accepted_is_first(o.game.entities, Selector::WithId(t));
                }
            },
            OpView::HealEntity { .. } => {
                reveal(heal_entity);
                if entity_index(o.game.entities, t) is Some {
                    lemma_first_accepted_is_first(o.game.entities, Selector::WithId(t));
                }
            },
            OpView::Boost { .. } => {
                reveal(boost);
                if entity_index(o.game.entities, t) is Some {
                    lemma_first_accepted_is_first(o.game.entities, Selector::WithId(t));
                }
            },
            OpView::Destroy => {
                reveal(destroy);
                if entity_index(o.game.entities, t) is Some {
                    lemma_first_accepted_is_first(o.game.entities, Selector::WithId(t));
                }
            },
            OpView::Strike { initiator } => {
                reveal(strike);
            },
            OpView::Draw { amount } => {
                lemma_draw_many_queue(o, t, amount as nat);
            },
            OpView::Summon { template } => {},
        }
    }
}

/// What steps that are no summons leave: as many cards as there were.
proof fn lemma_all_count(o: Outcome, op: OpView, ts: Seq<usize>)
    requires
        !(op is Summon),
    ensures
        apply_all(o, op, ts).game.entities.len() == o.game.entities.len(),
    decreases ts.len(),
{
    if ts.len() > 0 {
        lemma_all_count(o, op, ts.drop_last());
        lemma_step_count(apply_all(o, op, ts.drop_last()), op, ts.last());
    }
}

proof fn lemma_then_all_count(
    o: Outcome,
    op: OpView,
    ts: std::result::Result<Seq<usize>, crate::error::Fault>,
)
    requires
        !(op is Summon),
    ensures
        then_all(o, op, ts).game.entities.len() == o.game.entities.len(),
{
    if o.fault is None && ts is Ok {
        lemma_all_count(o, op, ts->Ok_0);
    }
}

/// An effect other than a summon leaves as many cards as there were.
pub proof fn lemma_effect_count(g: GameView, e: EffectView)
    requires
        !(e is Summon),
    ensures
        effect_outcome(g, e).game.entities.len() == g.entities.len(),
{
    reveal(effect_outcome);
    match e {
        EffectView::MakeDraw { initiator, player, amount } => {
            lemma_then_all_count(
                start(g),
                OpView::Draw { amount },
                resolved_player_target(g, initiator, player),
            );
        },
        EffectView::AutoDraw { player, amount } => {
            lemma_draw_many_queue(start(g), player, amount as nat);
        },
        EffectView::DealDamage { initiator, target, amount } => {
            let o1 = then_all(
                start(g),
                OpView::DamagePlayer { amount },
                resolved_player_only(g, initiator, target),
            );
            lemma_then_all_count(
                start(g),
                OpView::DamagePlayer { amount },
                resolved_player_only(g, initiator, target),
            );
            lemma_then_all_count(
                o1,
                OpView::DamageEntity { initiator, amount },
                resolved_field(o1.game, initiator, target),
            );
        },
        EffectView::Destroy { initiator, target } => {
            lemma_then_all_count(start(g), OpView::Destroy, resolved_field(g, initiator, target));
        },
        EffectView::Heal { initiator, target, amount } => {
            let o1 = then_all(
                start(g),
                OpView::HealPlayer { amount },
                resolved_player_only(g, initiator, target),
            );
            lemma_then_all_count(
                start(g),
                OpView::HealPlayer { amount },
                resolved_player_only(g, initiator, target),
            );
            lemma_then_all_count(
                o1,
                OpView::HealEntity { amount },
                resolved_field(o1.game, initiator, target),
            );
        },
        EffectView::Attack { initiator, target } => {
            lemma_then_all_count(
                start(g),
                OpView::Strike { initiator },
                resolved_target(g, initiator, target),
            );
        },
        EffectView::Boost { initiator, attack, hp, target } => {
            lemma_then_all_count(
                start(g),
                OpView::Boost { attack, hp },
                resolved_field(g, initiator, target),
            );
        },
        EffectView::IncreaseMaxMana { initiator, player, amount } => {
            lemma_then_all_count(
                start(g),
                OpView::IncreaseMaxMana { amount },
                resolved_player_target(g, initiator, player),
            );
        },
        EffectView::RefreshMana { initiator, player, amount } => {
            lemma_then_all_count(
                start(g),
                OpView::RefreshMana { amount },
                resolved_player_target(g, initiator, player),
            );
        },
        EffectView::Summon { .. } => {},
        EffectView::SummonFromHand { entity_id, position } => {
            reveal(summon_from_hand);
            if entity_index(g.entities, entity_id) is Some {
                lemma_first_accepted_is_first(g.entities, Selector::WithId(entity_id));
            }
        },
        EffectView::Win(player) => {},
    }
}

/// Whether the entity `t` lies in the graveyard.
pub open spec fn buried(g: GameView, t: InstanceId) -> bool {
    entity_index(g.entities, t) is Some && g.entities[entity_index(
        g.entities,
        t,
    )->0].location == Location::Graveyard
}

/// Destroy leaves its target in the graveyard, whatever set it off, and also
/// where the target is a spell and the step fails for it.
pub proof fn law_destroy_buries(o: Outcome, t: InstanceId)
    requires
        o.fault is None,
        entity_index(o.game.entities, t) is Some,
    ensures
        buried(apply_op(o, OpView::Destroy, t).game, t),
{
    reveal(apply_op);
    reveal(destroy);
    lemma_first_accepted_is_first(o.game.entities, Selector::WithId(t));
    let i = entity_index(o.game.entities, t)->0;
    let after = apply_op(o, OpView::Destroy, t).game;
    lemma_step_follows(o, OpView::Destroy, t);
    lemma_follows_index(o.game, after, t);
}

/// What lies in the graveyard stays there when something is destroyed.
pub proof fn lemma_destroy_keeps_buried(o: Outcome, t: InstanceId, x: InstanceId)
    requires
        buried(o.game, x),
    ensures
        buried(apply_op(o, OpView::Destroy, t).game, x),
{
    reveal(apply_op);
    reveal(destroy);
    let after = apply_op(o, OpView::Destroy, t).game;
    lemma_step_follows(o, OpView::Destroy, t);
    lemma_follows_index(o.game, after, x);
    lemma_first_accepted_is_first(o.game.entities, Selector::WithId(x));
    if o.fault is None && entity_index(o.game.entities, t) is Some {
        lemma_first_accepted_is_first(o.game.entities, Selector::WithId(t));
    }
}

/// After a run of destroy steps that did not fail, every recipient lies in the graveyard.
pub proof fn lemma_destroy_all_buries(o: Outcome, ts: Seq<usize>, x: InstanceId)
    requires
        o.fault is None,
    ensures
        buried(o.game, x) ==> buried(apply_all(o, OpView::Destroy, ts).game, x),
        apply_all(o, OpView::Destroy, ts).fault is None && ts.contains(x) ==> buried(
            apply_all(o, OpView::Destroy, ts).game,
            x,
        ),
    decreases ts.len(),
{
    if ts.len() > 0 {
        let before = apply_all(o, OpView::Destroy, ts.drop_last());
        let after = apply_all(o, OpView::Destroy, ts);
        lemma_destroy_all_buries(o, ts.drop_last(), x);
        if buried(before.game, x) {
            lemma_destroy_keeps_buried(before, ts.last(), x);
        }
        if after.fault is None && ts.contains(x) {
            reveal(apply_op);
            assert(before.fault is None);
            if ts.last() == x {
                reveal(destroy);
                assert(entity_index(before.game.entities, x) is Some);
                law_destroy_buries(before, x);
            } else {
                let k = choose|k: int| 0 <= k < ts.len() && ts[k] == x;
                assert(ts.drop_last()[k] == x);
                assert(ts.drop_last().contains(x));
            }
        }
    }
}

/// Destroy always leaves its targets in the graveyard: after a destroy effect
/// that did not fail, every entity that it reached lies there, whoever the
/// initiator was.
pub proof fn law_destroy_effect_buries(
    g: GameView,
    initiator: InstanceId,
    target: TargetView,
    x: InstanceId,
)
    requires
        effect_outcome(g, EffectView::Destroy { initiator, target }).fault is None,
        resolved_field(g, initiator, target) is Ok,
        resolved_field(g, initiator, target)->Ok_0.contains(x),
    ensures
        buried(effect_outcome(g, EffectView::Destroy { initiator, target }).game, x),
{
    reveal(effect_outcome);
    lemma_destroy_all_buries(start(g), resolved_field(g, initiator, target)->Ok_0, x);
}

/// Whether the player `t` exists and has all the health a player can have.
pub open spec fn player_at_cap(g: GameView, t: PlayerId) -> bool {
    player_index(g.players, t) is Some && g.players[player_index(g.players, t)->0].hp >= 30
}

/// Whether the entity `t` is a monster with all the health it can have.
pub open spec fn monster_at_cap(g: GameView, t: InstanceId) -> bool {
    entity_index(g.entities, t) is Some && match g.entities[entity_index(
        g.entities,
        t,
    )->0].card_type {
        CardTypeView::Monster(m) => m.hp >= m.max_hp,
        CardTypeView::Spell(_) => false,
    }
}

/// Healing a player who is at the cap changes nothing and records nothing.
pub proof fn law_heal_player_at_cap(o: Outcome, t: PlayerId, amount: usize)
    requires
        player_at_cap(o.game, t),
    ensures
        apply_op(o, OpView::HealPlayer { amount }, t) == o,
{
    reveal(apply_op);
    reveal(heal_player);
}

/// Healing a monster that is at its cap changes nothing and records nothing.
pub proof fn law_heal_monster_at_cap(o: Outcome, t: InstanceId, amount: usize)
    requires
        monster_at_cap(o.game, t),
    ensures
        apply_op(o, OpView::HealEntity { amount }, t) == o,
{
    reveal(apply_op);
    reveal(heal_entity);
}

/// Healing players who are all at the cap changes nothing.
proof fn lemma_heal_players_at_cap(o: Outcome, ts: Seq<usize>, amount: usize)
    requires
        forall|k: int| 0 <= k < ts.len() ==> player_at_cap(o.game, #[trigger] ts[k]),
    ensures
        apply_all(o, OpView::HealPlayer { amount }, ts) == o,
    decreases ts.len(),
{
    if ts.len() > 0 {
        assert forall|k: int| 0 <= k < ts.drop_last().len() implies player_at_cap(
            o.game,
            #[trigger] ts.drop_last()[k],
        ) by {
            assert(ts.drop_last()[k] == ts[k]);
        }
        lemma_heal_players_at_cap(o, ts.drop_last(), amount);
        assert(player_at_cap(o.game, ts[ts.len() - 1]));
        law_heal_player_at_cap(o, ts.last(), amount);
    }
}

/// Healing monsters that are all at their cap changes nothing.
proof fn lemma_heal_monsters_at_cap(o: Outcome, ts: Seq<usize>, amount: usize)
    requires
        forall|k: int| 0 <= k < ts.len() ==> monster_at_cap(o.game, #[trigger] ts[k]),
    ensures
        apply_all(o, OpView::HealEntity { amount }, ts) == o,
    decreases ts.len(),
{
    if ts.len() > 0 {
        assert forall|k: int| 0 <= k < ts.drop_last().len() implies monster_at_cap(
            o.game,
            #[trigger] ts.drop_last()[k],
        ) by {
            assert(ts.drop_last()[k] == ts[k]);
        }
        lemma_heal_monsters_at_cap(o, ts.drop_last(), amount);
        assert(monster_at_cap(o.game, ts[ts.len() - 1]));
        law_heal_monster_at_cap(o, ts.last(), amount);
    }
}

/// Healing what is already at its cap is no event: a heal effect whose
/// recipients are all at their cap leaves the state as it was and records nothing.
pub proof fn law_heal_effect_at_cap(
    g: GameView,
    initiator: InstanceId,
    target: TargetView,
    amount: usize,
)
    requires
        resolved_player_only(g, initiator, target) is Ok,
        resolved_field(g, initiator, target) is Ok,
        forall|k: int|
            0 <= k < resolved_player_only(g, initiator, target)->Ok_0.len() ==> player_at_cap(
                g,
                #[trigger] resolved_player_only(g, initiator, target)->Ok_0[k],
            ),
        forall|k: int|
            0 <= k < resolved_field(g, initiator, target)->Ok_0.len() ==> monster_at_cap(
                g,
                #[trigger] resolved_field(g, initiator, target)->Ok_0[k],
            ),
    ensures
        effect_outcome(g, EffectView::Heal { initiator, target, amount }) == start(g),
{
    reveal(effect_outcome);
    lemma_heal_players_at_cap(
        start(g),
        resolved_player_only(g, initiator, target)->Ok_0,
        amount,
    );
    lemma_heal_monsters_at_cap(start(g), resolved_field(g, initiator, target)->Ok_0, amount);
}

/// Whether the players of `h` are those of `g` with the base mana they had, and
/// with mana within it wherever it was within it.
pub open spec fn mana_kept(g: GameView, h: GameView) -> bool {
    &&& g.players.len() == h.players.len()
    &&& forall|i: int|
        0 <= i < g.players.len() ==> {
            &&& (#[trigger] h.players[i]).player_id == g.players[i].player_id
            &&& h.players[i].base_mana == g.players[i].base_mana
            &&& (g.players[i].mana <= g.players[i].base_mana ==> h.players[i].mana
                <= h.players[i].base_mana)
        }
}

/// Mana kept, and then kept again, is kept.
pub proof fn lemma_mana_kept_chain(g: GameView, h: GameView, k: GameView)
    requires
        mana_kept(g, h),
        mana_kept(h, k),
    ensures
        mana_kept(g, k),
{
    assert forall|i: int| 0 <= i < g.players.len() implies {
        &&& (#[trigger] k.players[i]).player_id == g.players[i].player_id
        &&& k.players[i].base_mana == g.players[i].base_mana
        &&& (g.players[i].mana <= g.players[i].base_mana ==> k.players[i].mana
            <= k.players[i].base_mana)
    } by {
        assert(h.players[i].player_id == g.players[i].player_id);
    }
}

/// Every step but the growth of the base mana keeps the mana.
pub proof fn lemma_step_keeps_mana(o: Outcome, op: OpView, t: usize)
    requires
        !(op is IncreaseMaxMana),
    ensures
        mana_kept(o.game, apply_op(o, op, t).game),
{
    reveal(apply_op);
    if o.fault is None {
        match op {
            OpView::DamagePlayer { .. } => {
                reveal(damage_player);
                if player_index(o.game.players, t) is Some {
                    lemma_player_index_is_first(o.game.players, t);
                }
            },
            OpView::HealPlayer { .. } => {
                reveal(heal_player);
                if player_index(o.game.players, t) is Some {
                    lemma_player_index_is_first(o.game.players, t);
                }
            },
            OpView::IncreaseMaxMana { .. } => {},
            OpView::RefreshMana { .. } => {
                reveal(refresh_mana);
                if player_index(o.game.players, t) is Some {
                    lemma_player_index_is_first(o.game.players, t);
                }
            },
            OpView::DamageEntity { .. } => {
                reveal(damage_entity);
            },
            OpView::HealEntity { .. } => {
                reveal(heal_entity);
            },
            OpView::Boost { .. } => {
                reveal(boost);
            },
            OpView::Destroy => {
                reveal(destroy);
            },
            OpView::Strike { initiator } => {
                reveal(strike);
            },
            OpView::Draw { amount } => {
                lemma_draw_many_queue(o, t, amount as nat);
            },
            OpView::Summon { template } => {
                reveal(summon_step);
            },
        }
    }
}

/// Steps on all recipients keep the mana, but for the growth of the base mana.
pub proof fn lemma_all_keep_mana(o: Outcome, op: OpView, ts: Seq<usize>)
    requires
        !(op is IncreaseMaxMana),
    ensures
        mana_kept(o.game, apply_all(o, op, ts).game),
    decreases ts.len(),
{
    if ts.len() > 0 {
        let before = apply_all(o, op, ts.drop_last());
        lemma_all_keep_mana(o, op, ts.drop_last());
        lemma_step_keeps_mana(before, op, ts.last());
        lemma_mana_kept_chain(o.game, before.game, apply_all(o, op, ts).game);
    }
}

proof fn lemma_then_all_keeps_mana(
    o: Outcome,
    op: OpView,
    ts: std::result::Result<Seq<usize>, crate::error::Fault>,
)
    requires
        !(op is IncreaseMaxMana),
    ensures
        mana_kept(o.game, then_all(o, op, ts).game),
{
    if o.fault is None && ts is Ok {
        lemma_all_keep_mana(o, op, ts->Ok_0);
    }
}

/// Every effect but the growth of the base mana keeps the mana.
pub proof fn lemma_effect_keeps_mana(g: GameView, e: EffectView)
    requires
        !(e is IncreaseMaxMana),
    ensures
        mana_kept(g, effect_outcome(g, e).game),
{
    reveal(effect_outcome);
    match e {
        EffectView::MakeDraw { initiator, player, amount } => {
            lemma_then_all_keeps_mana(
                start(g),
                OpView::Draw { amount },
                resolved_player_target(g, initiator, player),
            );
        },
        EffectView::AutoDraw { player, amount } => {
            lemma_draw_many_queue(start(g), player, amount as nat);
        },
        EffectView::DealDamage { initiator, target, amount } => {
            let o1 = then_all(
                start(g),
                OpView::DamagePlayer { amount },
                resolved_player_only(g, initiator, target),
            );
            lemma_then_all_keeps_mana(
                start(g),
                OpView::DamagePlayer { amount },
                resolved_player_only(g, initiator, target),
            );
            lemma_then_all_keeps_mana(
                o1,
                OpView::DamageEntity { initiator, amount },
                resolved_field(o1.game, initiator, target),
            );
            lemma_mana_kept_chain(g, o1.game, effect_outcome(g, e).game);
        },
        EffectView::Destroy { initiator, target } => {
            lemma_then_all_keeps_mana(
                start(g),
                OpView::Destroy,
                resolved_field(g, initiator, target),
            );
        },
        EffectView::Heal { initiator, target, amount } => {
            let o1 = then_all(
                start(g),
                OpView::HealPlayer { amount },
                resolved_player_only(g, initiator, target),
            );
            lemma_then_all_keeps_mana(
                start(g),
                OpView::HealPlayer { amount },
                resolved_player_only(g, initiator, target),
            );
            lemma_then_all_keeps_mana(
                o1,
                OpView::HealEntity { amount },
                resolved_field(o1.game, initiator, target),
            );
            lemma_mana_kept_chain(g, o1.game, effect_outcome(g, e).game);
        },
        EffectView::Attack { initiator, target } => {
            lemma_then_all_keeps_mana(
                start(g),
                OpView::Strike { initiator },
                resolved_target(g, initiator, target),
            );
        },
        EffectView::Boost { initiator, attack, hp, target } => {
            lemma_then_all_keeps_mana(
                start(g),
                OpView::Boost { attack, hp },
                resolved_field(g, initiator, target),
            );
        },
        EffectView::IncreaseMaxMana { .. } => {},
        EffectView::RefreshMana { initiator, player, amount } => {
            lemma_then_all_keeps_mana(
                start(g),
                OpView::RefreshMana { amount },
                resolved_player_target(g, initiator, player),
            );
        },
        EffectView::Summon { initiator, side, target } => {
            lemma_then_all_keeps_mana(
                start(g),
                OpView::Summon { template: target },
                resolved_player_target(g, initiator, side),
            );
        },
        EffectView::SummonFromHand { entity_id, position } => {
            reveal(summon_from_hand);
        },
        EffectView::Win(player) => {},
    }
}

/// Whether a growth of the base mana is of the form that the start of a turn
/// queues: for the player who initiates it.
pub open spec fn tame(e: EffectView) -> bool {
    match e {
        EffectView::IncreaseMaxMana { initiator, player, amount } => player
            == PlayerTarget::Player && is_player(initiator),
        _ => true,
    }
}

/// How much base mana the effect `e` will give to the player `p`.
pub open spec fn growth_for(e: EffectView, p: PlayerId) -> nat {
    match e {
        EffectView::IncreaseMaxMana { initiator, player, amount } => if initiator == p {
            amount as nat
        } else {
            0
        },
        _ => 0,
    }
}

/// How much base mana the effects of the queue `q` will give to the player `p`.
pub open spec fn pending_growth(q: Seq<EffectView>, p: PlayerId) -> nat
    decreases q.len(),
{
    if q.len() == 0 {
        0
    } else {
        pending_growth(q.drop_last(), p) + growth_for(q.last(), p)
    }
}

/// Whether the players are seated as a game seats them: each under an id that
/// names a player, and no two under the same id.
pub open spec fn distinct_players(g: GameView) -> bool {
    &&& forall|i: int, j: int|
        0 <= i < j < g.players.len() ==> (#[trigger] g.players[i]).player_id != (
        #[trigger] g.players[j]).player_id
    &&& forall|i: int|
        0 <= i < g.players.len() ==> is_player(
            (#[trigger] g.players[i]).player_id,
        )
}

/// Whether the mana of `g` is in order while the effect worth `flying` to each
/// player is in flight: no player has more mana than base mana, and no base
/// mana will pass ten, counting what is in flight and what waits in the queue.
pub open spec fn mana_sound_with(g: GameView, flying: spec_fn(PlayerId) -> nat) -> bool {
    &&& cards_free(g, Kind::Growth)
    &&& distinct_players(g)
    &&& forall|j: int| 0 <= j < g.effect_queue.len() ==> tame(#[trigger] g.effect_queue[j])
    &&& forall|i: int|
        0 <= i < g.players.len() ==> {
            &&& (#[trigger] g.players[i]).mana <= g.players[i].base_mana
            &&& g.players[i].base_mana + flying(g.players[i].player_id) + pending_growth(
                g.effect_queue,
                g.players[i].player_id,
            ) <= 10
        }
}

/// Whether the mana of `g` is in order: no player has more mana than base
/// mana, and no base mana is above ten or will pass it by what waits in the queue.
pub open spec fn mana_sound(g: GameView) -> bool {
    mana_sound_with(g, |p: PlayerId| 0nat)
}

/// Whether in `g` no player has more mana than base mana, nor more base mana than ten.
pub open spec fn caps_hold(g: GameView) -> bool {
    forall|i: int|
        0 <= i < g.players.len() ==> (#[trigger] g.players[i]).mana <= g.players[i].base_mana
            && g.players[i].base_mana <= 10
}

/// What the queue will give counts the first effect and the rest.
pub proof fn lemma_pending_front(q: Seq<EffectView>, p: PlayerId)
    requires
        q.len() > 0,
    ensures
        pending_growth(q, p) == growth_for(q[0], p) + pending_growth(q.drop_first(), p),
    decreases q.len(),
{
    if q.len() == 1 {
        assert(q.drop_last() =~= Seq::<EffectView>::empty());
        assert(q.drop_first() =~= Seq::<EffectView>::empty());
    } else {
        lemma_pending_front(q.drop_last(), p);
        assert(q.drop_last().drop_first() =~= q.drop_first().drop_last());
        assert(q.drop_first().last() == q.last());
        assert(q.drop_last()[0] == q[0]);
    }
}

/// Effects added to the queue that do not grow the base mana give nothing.
pub proof fn lemma_pending_grows(q: Seq<EffectView>, q2: Seq<EffectView>, p: PlayerId)
    requires
        grows_by(q, q2, Kind::Growth),
    ensures
        pending_growth(q2, p) == pending_growth(q, p),
    decreases q2.len(),
{
    if q2.len() > q.len() {
        assert(avoids(q2[q2.len() - 1], Kind::Growth));
        assert(grows_by(q, q2.drop_last(), Kind::Growth)) by {
            assert forall|i: int| 0 <= i < q.len() implies q[i] == #[trigger] q2.drop_last()[i] by {
                assert(q[i] == q2[i]);
            }
            assert forall|i: int| q.len() <= i < q2.drop_last().len() implies avoids(
                #[trigger] q2.drop_last()[i],
                Kind::Growth,
            ) by {
                assert(avoids(q2[i], Kind::Growth));
            }
        }
        lemma_pending_grows(q, q2.drop_last(), p);
    } else {
        assert(q2 =~= q) by {
            assert forall|i: int| 0 <= i < q.len() implies q[i] == q2[i] by {
                assert(q[i] == q2[i]);
            }
        }
    }
}

/// Mana in order stays in order when an effect runs that was counted as in flight.
pub proof fn lemma_effect_keeps_mana_sound(g: GameView, e: EffectView)
    requires
        tame(e),
        mana_sound_with(g, |p: PlayerId| growth_for(e, p)),
    ensures
        mana_sound(effect_outcome(g, e).game),
{
    let h = effect_outcome(g, e).game;
    lemma_effect_queue(g, e, Kind::Growth);
    lemma_effect_follows(g, e);
    assert forall|j: int| 0 <= j < h.effect_queue.len() implies tame(
        #[trigger] h.effect_queue[j],
    ) by {
        if j < g.effect_queue.len() {
            assert(g.effect_queue[j] == h.effect_queue[j]);
            assert(tame(g.effect_queue[j]));
        } else {
            assert(avoids(h.effect_queue[j], Kind::Growth));
        }
    }
    assert(distinct_players(h)) by {
        assert forall|i: int, j: int| 0 <= i < j < h.players.len() implies (
        #[trigger] h.players[i]).player_id != (#[trigger] h.players[j]).player_id by {
            assert(g.players[i].player_id == h.players[i].player_id);
            assert(g.players[j].player_id == h.players[j].player_id);
        }
        assert forall|i: int| 0 <= i < h.players.len() implies is_player(
            (#[trigger] h.players[i]).player_id,
        ) by {
            assert(g.players[i].player_id == h.players[i].player_id);
        }
    }
    assert forall|i: int| 0 <= i < h.players.len() implies {
        &&& (#[trigger] h.players[i]).mana <= h.players[i].base_mana
        &&& h.players[i].base_mana + pending_growth(h.effect_queue, h.players[i].player_id)
            <= 10
    } by {
        lemma_pending_grows(g.effect_queue, h.effect_queue, h.players[i].player_id);
        assert(g.players[i].mana <= g.players[i].base_mana);
        match e {
            EffectView::IncreaseMaxMana { initiator, player, amount } => {
                lemma_growth_effect(g, initiator, amount, i);
            },
            _ => {
                lemma_effect_keeps_mana(g, e);
            },
        }
    }
}

/// What a tame growth of the base mana does to the player at the place `i`: it
/// gives the amount to the initiator, and to nobody else.
proof fn lemma_growth_effect(g: GameView, initiator: InstanceId, amount: usize, i: int)
    requires
        is_player(initiator),
        distinct_players(g),
        0 <= i < g.players.len(),
    ensures
        ({
            let e = EffectView::IncreaseMaxMana {
                initiator,
                player: PlayerTarget::Player,
                amount,
            };
            let h = effect_outcome(g, e).game;
            &&& h.players.len() == g.players.len()
            &&& h.players[i].player_id == g.players[i].player_id
            &&& h.players[i].mana == g.players[i].mana
            &&& h.players[i].base_mana <= g.players[i].base_mana + growth_for(
                e,
                g.players[i].player_id,
            )
            &&& h.players[i].base_mana >= g.players[i].base_mana
        }),
{
    reveal(effect_outcome);
    reveal(apply_op);
    reveal(increase_max_mana);
    let e = EffectView::IncreaseMaxMana { initiator, player: PlayerTarget::Player, amount };
    let ts = resolved_player_target(g, initiator, PlayerTarget::Player);
    if ts is Ok {
        let one = ts->Ok_0;
        assert(one =~= seq![initiator]);
        assert(one.drop_last() =~= Seq::<usize>::empty());
        assert(apply_all(start(g), OpView::IncreaseMaxMana { amount }, one) == apply_op(
            start(g),
            OpView::IncreaseMaxMana { amount },
            initiator,
        )) by {
            assert(apply_all(start(g), OpView::IncreaseMaxMana { amount }, one.drop_last())
                == start(g));
        }
        if player_index(g.players, initiator) is Some {
            lemma_player_index_is_first(g.players, initiator);
        }
    }
}

/// Mana in order stays in order while the queue is drained.
pub proof fn lemma_drain_keeps_mana_sound(g: GameView, fuel: nat)
    requires
        mana_sound(g),
    ensures
        mana_sound(drain(g, fuel).game),
    decreases fuel,
{
    if g.effect_queue.len() > 0 && fuel > 0 {
        let e = g.effect_queue[0];
        let g1 = g.dequeued();
        assert(tame(e));
        assert(mana_sound_with(g1, |p: PlayerId| growth_for(e, p))) by {
            assert(g1.entities == g.entities);
            assert forall|j: int| 0 <= j < g1.effect_queue.len() implies tame(
                #[trigger] g1.effect_queue[j],
            ) by {
                assert(g1.effect_queue[j] == g.effect_queue[j + 1]);
            }
            assert forall|i: int| 0 <= i < g1.players.len() implies {
                &&& (#[trigger] g1.players[i]).mana <= g1.players[i].base_mana
                &&& g1.players[i].base_mana + growth_for(e, g1.players[i].player_id)
                    + pending_growth(g1.effect_queue, g1.players[i].player_id) <= 10
            } by {
                lemma_pending_front(g.effect_queue, g.players[i].player_id);
                assert(g.players[i].mana <= g.players[i].base_mana);
            }
        }
        lemma_effect_keeps_mana_sound(g1, e);
        let o = effect_outcome(g1, e);
        if o.fault is None {
            lemma_drain_keeps_mana_sound(o.game, (fuel - 1) as nat);
        }
    }
}

/// A drain that does not fail leaves the queue empty.
pub proof fn lemma_drain_runs_dry(g: GameView, fuel: nat)
    requires
        drain(g, fuel).fault is None,
    ensures
        drain(g, fuel).game.effect_queue.len() == 0,
    decreases fuel,
{
    if g.effect_queue.len() > 0 && fuel > 0 {
        let o = effect_outcome(g.dequeued(), g.effect_queue[0]);
        if o.fault is None {
            lemma_drain_runs_dry(o.game, (fuel - 1) as nat);
        }
    }
}

/// Whether the entities of `g` are named as a game names them: no two under
/// the same id, and none under an id that names a player.
pub open spec fn named_apart(g: GameView) -> bool {
    &&& forall|i: int, j: int|
        0 <= i < j < g.entities.len() ==> (#[trigger] g.entities[i]).id != (
        #[trigger] g.entities[j]).id
    &&& forall|i: int| 0 <= i < g.entities.len() ==> !is_player((#[trigger] g.entities[i]).id)
}

/// Whether nobody in `g` has more health than can be had: no monster more than
/// its own greatest health, no hero more than thirty.
pub open spec fn healthy(g: GameView) -> bool {
    &&& forall|i: int|
        0 <= i < g.entities.len() ==> match (#[trigger] g.entities[i]).card_type {
            CardTypeView::Monster(m) => m.hp <= m.max_hp,
            CardTypeView::Spell(_) => true,
        }
    &&& forall|i: int| 0 <= i < g.players.len() ==> (#[trigger] g.players[i]).hp <= 30
}

/// Whether the state `g` is in form: its cards are named apart, and nobody has
/// more health than can be had.
pub open spec fn in_form(g: GameView) -> bool {
    named_apart(g) && healthy(g)
}

/// Whether the state `h` has the cards of `g` under their ids and with their
/// kind and health, and the players of `g` with their health.
pub open spec fn form_kept(g: GameView, h: GameView) -> bool {
    &&& g.entities.len() == h.entities.len()
    &&& forall|i: int|
        0 <= i < g.entities.len() ==> (#[trigger] h.entities[i]).id == g.entities[i].id && match (
            g.entities[i].card_type,
            h.entities[i].card_type,
        ) {
            (CardTypeView::Monster(x), CardTypeView::Monster(y)) => x.hp <= x.max_hp ==> y.hp
                <= y.max_hp,
            (CardTypeView::Spell(_), CardTypeView::Spell(_)) => true,
            _ => false,
        }
    &&& g.players.len() == h.players.len()
    &&& forall|i: int|
        0 <= i < g.players.len() ==> (g.players[i].hp <= 30 ==> (#[trigger] h.players[i]).hp <= 30)
}

/// A state that keeps the form of a state in form is in form.
pub proof fn lemma_form_kept(g: GameView, h: GameView)
    requires
        in_form(g),
        form_kept(g, h),
    ensures
        in_form(h),
{
    assert forall|i: int, j: int| 0 <= i < j < h.entities.len() implies (
    #[trigger] h.entities[i]).id != (#[trigger] h.entities[j]).id by {
        assert(g.entities[i].id != g.entities[j].id);
    }
    assert forall|i: int| 0 <= i < h.entities.len() implies !is_player(
        (#[trigger] h.entities[i]).id,
    ) by {
        assert(!is_player(g.entities[i].id));
    }
    assert forall|i: int| 0 <= i < h.entities.len() implies match (
    #[trigger] h.entities[i]).card_type {
        CardTypeView::Monster(m) => m.hp <= m.max_hp,
        CardTypeView::Spell(_) => true,
    } by {
        assert(h.entities[i].id == g.entities[i].id);
        assert(match g.entities[i].card_type {
            CardTypeView::Monster(m) => m.hp <= m.max_hp,
            CardTypeView::Spell(_) => true,
        });
    }
    assert forall|i: int| 0 <= i < h.players.len() implies (#[trigger] h.players[i]).hp <= 30 by {
        assert(g.players[i].hp <= 30);
    }
}

/// Form kept, and then kept again, is kept.
pub proof fn lemma_form_kept_chain(g: GameView, h: GameView, k: GameView)
    requires
        form_kept(g, h),
        form_kept(h, k),
    ensures
        form_kept(g, k),
{
    assert forall|i: int| 0 <= i < g.entities.len() implies (#[trigger] k.entities[i]).id
        == g.entities[i].id && match (g.entities[i].card_type, k.entities[i].card_type) {
        (CardTypeView::Monster(x), CardTypeView::Monster(y)) => x.hp <= x.max_hp ==> y.hp
            <= y.max_hp,
        (CardTypeView::Spell(_), CardTypeView::Spell(_)) => true,
        _ => false,
    } by {
        assert(h.entities[i].id == g.entities[i].id);
    }
    assert forall|i: int| 0 <= i < g.players.len() implies (g.players[i].hp <= 30 ==> (
    #[trigger] k.players[i]).hp <= 30) by {
        assert(g.players[i].hp <= 30 ==> h.players[i].hp <= 30);
    }
}

/// One draw keeps the form.
proof fn lemma_draw_one_form(o: Outcome, p: PlayerId)
    ensures
        form_kept(o.game, draw_one(o, p).game),
{
    reveal(draw_one);
    if o.fault is None {
        if first_accepted(o.game.entities, Selector::DeckOf(p)) is Some {
            lemma_first_accepted_is_first(o.game.entities, Selector::DeckOf(p));
        }
    }
}

/// Draws keep the form.
proof fn lemma_draw_many_form(o: Outcome, p: PlayerId, n: nat)
    ensures
        form_kept(o.game, draw_many(o, p, n).game),
    decreases n,
{
    if n > 0 {
        lemma_draw_many_form(o, p, (n - 1) as nat);
        lemma_draw_one_form(draw_many(o, p, (n - 1) as nat), p);
        lemma_form_kept_chain(
            o.game,
            draw_many(o, p, (n - 1) as nat).game,
            draw_many(o, p, n).game,
        );
    }
}

/// A step on an entity keeps the form.
proof fn lemma_entity_steps_form(o: Outcome, op: OpView, t: usize)
    requires
        op is DamageEntity || op is Destroy || op is HealEntity || op is Boost || op is Strike,
    ensures
        form_kept(o.game, apply_op(o, op, t).game),
{
    reveal(apply_op);
    reveal(damage_entity);
    reveal(destroy);
    reveal(heal_entity);
    reveal(boost);
    reveal(strike);
    if o.fault is None {
        if entity_index(o.game.entities, t) is Some {
            lemma_first_accepted_is_first(o.game.entities, Selector::WithId(t));
        }
    }
}

/// A step on a player keeps the form.
proof fn lemma_player_steps_form(o: Outcome, op: OpView, t: usize)
    requires
        op is DamagePlayer || op is HealPlayer || op is IncreaseMaxMana || op is RefreshMana,
    ensures
        form_kept(o.game, apply_op(o, op, t).game),
{
    reveal(apply_op);
    reveal(damage_player);
    reveal(heal_player);
    reveal(increase_max_mana);
    reveal(refresh_mana);
    if o.fault is None {
        if player_index(o.game.players, t) is Some {
            lemma_player_index_is_first(o.game.players, t);
        }
    }
}

/// A summon leaves a state in form in form: the new card has an id of its own
/// and all its health.
proof fn lemma_summon_form(o: Outcome, t: PlayerId, template: CardTemplateView)
    requires
        in_form(o.game),
    ensures
        in_form(summon_step(o, t, template).game),
{
    reveal(summon_step);
    let g = o.game;
    let h = summon_step(o, t, template).game;
    if h != g {
        let n = g.entities.len() as int;
        let id = crate::game::logic::summon::fresh_id(g.entities)->0;
        crate::game::logic::summon::law_fresh_id_is_new(g.entities);
        assert(h.entities.len() == n + 1);
        assert(h.entities[n].id == id);
        assert(id >= 10000);
        assert forall|i: int, j: int| 0 <= i < j < h.entities.len() implies (
        #[trigger] h.entities[i]).id != (#[trigger] h.entities[j]).id by {
            assert(h.entities[i] == g.entities[i]);
            if j < n {
                assert(h.entities[j] == g.entities[j]);
            } else {
                assert(Selector::WithId(id).accepts(g.entities[i]) == (g.entities[i].id == id));
            }
        }
        assert forall|i: int| 0 <= i < h.entities.len() implies !is_player(
            (#[trigger] h.entities[i]).id,
        ) && match h.entities[i].card_type {
            CardTypeView::Monster(m) => m.hp <= m.max_hp,
            CardTypeView::Spell(_) => true,
        } by {
            if i < n {
                assert(h.entities[i] == g.entities[i]);
            }
        }
    }
}

/// Every step leaves a state in form in form.
pub proof fn lemma_step_form(o: Outcome, op: OpView, t: usize)
    requires
        in_form(o.game),
    ensures
        in_form(apply_op(o, op, t).game),
{
    match op {
        OpView::Draw { amount } => {
            reveal(apply_op);
            lemma_draw_many_form(o, t, amount as nat);
            if o.fault is None {
                lemma_form_kept(o.game, apply_op(o, op, t).game);
            }
        },
        OpView::Summon { template } => {
            reveal(apply_op);
            lemma_summon_form(o, t, template);
        },
        OpView::DamagePlayer { .. } | OpView::HealPlayer { .. } | OpView::IncreaseMaxMana { .. }
        | OpView::RefreshMana { .. } => {
            lemma_player_steps_form(o, op, t);
            lemma_form_kept(o.game, apply_op(o, op, t).game);
        },
        _ => {
            lemma_entity_steps_form(o, op, t);
            lemma_form_kept(o.game, apply_op(o, op, t).game);
        },
    }
}

/// Steps on all recipients leave a state in form in form.
pub proof fn lemma_all_form(o: Outcome, op: OpView, ts: Seq<usize>)
    requires
        in_form(o.game),
    ensures
        in_form(apply_all(o, op, ts).game),
    decreases ts.len(),
{
    if ts.len() > 0 {
        lemma_all_form(o, op, ts.drop_last());
        lemma_step_form(apply_all(o, op, ts.drop_last()), op, ts.last());
    }
}

proof fn lemma_then_all_form(
    o: Outcome,
    op: OpView,
    ts: std::result::Result<Seq<usize>, crate::error::Fault>,
)
    requires
        in_form(o.game),
    ensures
        in_form(then_all(o, op, ts).game),
{
    if o.fault is None && ts is Ok {
        lemma_all_form(o, op, ts->Ok_0);
    }
}

/// The cards stay named apart and nobody gains health beyond the cap: an
/// effect leaves a state in form in form.
pub proof fn law_effect_keeps_form(g: GameView, e: EffectView)
    requires
        in_form(g),
    ensures
        in_form(effect_outcome(g, e).game),
{
    reveal(effect_outcome);
    match e {
        EffectView::MakeDraw { initiator, player, amount } => {
            lemma_then_all_form(
                start(g),
                OpView::Draw { amount },
                resolved_player_target(g, initiator, player),
            );
        },
        EffectView::AutoDraw { player, amount } => {
            lemma_draw_many_form(start(g), player, amount as nat);
            lemma_form_kept(g, effect_outcome(g, e).game);
        },
        EffectView::DealDamage { initiator, target, amount } => {
            let o1 = then_all(
                start(g),
                OpView::DamagePlayer { amount },
                resolved_player_only(g, initiator, target),
            );
            lemma_then_all_form(
                start(g),
                OpView::DamagePlayer { amount },
                resolved_player_only(g, initiator, target),
            );
            lemma_then_all_form(
                o1,
                OpView::DamageEntity { initiator, amount },
                resolved_field(o1.game, initiator, target),
            );
        },
        EffectView::Destroy { initiator, target } => {
            lemma_then_all_form(start(g), OpView::Destroy, resolved_field(g, initiator, target));
        },
        EffectView::Heal { initiator, target, amount } => {
            let o1 = then_all(
                start(g),
                OpView::HealPlayer { amount },
                resolved_player_only(g, initiator, target),
            );
            lemma_then_all_form(
                start(g),
                OpView::HealPlayer { amount },
                resolved_player_only(g, initiator, target),
            );
            lemma_then_all_form(
                o1,
                OpView::HealEntity { amount },
                resolved_field(o1.game, initiator, target),
            );
        },
        EffectView::Attack { initiator, target } => {
            lemma_then_all_form(
                start(g),
                OpView::Strike { initiator },
                resolved_target(g, initiator, target),
            );
        },
        EffectView::Boost { initiator, attack, hp, target } => {
            lemma_then_all_form(
                start(g),
                OpView::Boost { attack, hp },
                resolved_field(g, initiator, target),
            );
        },
        EffectView::IncreaseMaxMana { initiator, player, amount } => {
            lemma_then_all_form(
                start(g),
                OpView::IncreaseMaxMana { amount },
                resolved_player_target(g, initiator, player),
            );
        },
        EffectView::RefreshMana { initiator, player, amount } => {
            lemma_then_all_form(
                start(g),
                OpView::RefreshMana { amount },
                resolved_player_target(g, initiator, player),
            );
        },
        EffectView::Summon { initiator, side, target } => {
            lemma_then_all_form(
                start(g),
                OpView::Summon { template: target },
                resolved_player_target(g, initiator, side),
            );
        },
        EffectView::SummonFromHand { entity_id, position } => {
            reveal(summon_from_hand);
            if entity_index(g.entities, entity_id) is Some {
                lemma_first_accepted_is_first(g.entities, Selector::WithId(entity_id));
            }
            let h = effect_outcome(g, e).game;
            assert(form_kept(g, h));
            lemma_form_kept(g, h);
        },
        EffectView::Win(player) => {
            let h = effect_outcome(g, e).game;
            assert(h.entities == g.entities);
            assert(h.players == g.players);
        },
    }
}

/// The cards stay named apart and nobody gains health beyond the cap: a drain
/// of the queue leaves a state in form in form.
pub proof fn law_drain_keeps_form(g: GameView, fuel: nat)
    requires
        in_form(g),
    ensures
        in_form(drain(g, fuel).game),
    decreases fuel,
{
    if g.effect_queue.len() > 0 && fuel > 0 {
        let g1 = g.dequeued();
        assert(in_form(g1)) by {
            assert(g1.entities == g.entities);
            assert(g1.players == g.players);
        }
        law_effect_keeps_form(g1, g.effect_queue[0]);
        let o = effect_outcome(g1, g.effect_queue[0]);
        if o.fault is None {
            law_drain_keeps_form(o.game, (fuel - 1) as nat);
        }
    }
}

/// Whether no player of `g` has two cards on the same slot of the field.
pub open spec fn slots_apart(g: GameView) -> bool {
    forall|i: int, j: int|
        0 <= i < j < g.entities.len() && (#[trigger] g.entities[i]).owner == (
        #[trigger] g.entities[j]).owner && g.entities[i].location is Field
            ==> g.entities[i].location != g.entities[j].location
}

/// Whether the state `h` has the cards of `g` with their owners, each at its
/// place or off the field.
pub open spec fn places_kept(g: GameView, h: GameView) -> bool {
    &&& g.entities.len() == h.entities.len()
    &&& forall|i: int|
        0 <= i < g.entities.len() ==> (#[trigger] h.entities[i]).owner == g.entities[i].owner && (
        h.entities[i].location == g.entities[i].location || !(h.entities[i].location is Field))
}

/// A state that keeps the places of a state with the slots apart has them apart.
pub proof fn lemma_places_kept(g: GameView, h: GameView)
    requires
        slots_apart(g),
        places_kept(g, h),
    ensures
        slots_apart(h),
{
    assert forall|i: int, j: int|
        0 <= i < j < h.entities.len() && (#[trigger] h.entities[i]).owner == (
        #[trigger] h.entities[j]).owner && h.entities[i].location is Field implies h.entities[i].location
        != h.entities[j].location by {
        assert(h.entities[i].owner == g.entities[i].owner);
        assert(h.entities[j].owner == g.entities[j].owner);
        if h.entities[i].location == h.entities[j].location {
            assert(g.entities[i].location != g.entities[j].location);
        }
    }
}

/// Places kept, and then kept again, are kept.
pub proof fn lemma_places_kept_chain(g: GameView, h: GameView, k: GameView)
    requires
        places_kept(g, h),
        places_kept(h, k),
    ensures
        places_kept(g, k),
{
    assert forall|i: int| 0 <= i < g.entities.len() implies (#[trigger] k.entities[i]).owner
        == g.entities[i].owner && (k.entities[i].location == g.entities[i].location || !(
    k.entities[i].location is Field)) by {
        assert(h.entities[i].owner == g.entities[i].owner);
    }
}

proof fn lemma_draw_one_places(o: Outcome, p: PlayerId)
    ensures
        places_kept(o.game, draw_one(o, p).game),
{
    reveal(draw_one);
    if o.fault is None {
        if first_accepted(o.game.entities, Selector::DeckOf(p)) is Some {
            lemma_first_accepted_is_first(o.game.entities, Selector::DeckOf(p));
        }
    }
}

proof fn lemma_draw_many_places(o: Outcome, p: PlayerId, n: nat)
    ensures
        places_kept(o.game, draw_many(o, p, n).game),
    decreases n,
{
    if n > 0 {
        lemma_draw_many_places(o, p, (n - 1) as nat);
        lemma_draw_one_places(draw_many(o, p, (n - 1) as nat), p);
        lemma_places_kept_chain(
            o.game,
            draw_many(o, p, (n - 1) as nat).game,
            draw_many(o, p, n).game,
        );
    }
}

proof fn lemma_plain_steps_places(o: Outcome, op: OpView, t: usize)
    requires
        !(op is Draw) && !(op is Summon),
    ensures
        places_kept(o.game, apply_op(o, op, t).game),
{
    reveal(apply_op);
    reveal(damage_entity);
    reveal(destroy);
    reveal(heal_entity);
    reveal(boost);
    reveal(strike);
    reveal(damage_player);
    reveal(heal_player);
    reveal(increase_max_mana);
    reveal(refresh_mana);
    if o.fault is None {
        if entity_index(o.game.entities, t) is Some {
            lemma_first_accepted_is_first(o.game.entities, Selector::WithId(t));
        }
    }
}

/// A summon puts the new card on a slot that its owner had free.
proof fn lemma_summon_slots(o: Outcome, t: PlayerId, template: CardTemplateView)
    requires
        slots_apart(o.game),
    ensures
        slots_apart(summon_step(o, t, template).game),
{
    reveal(summon_step);
    let g = o.game;
    let h = summon_step(o, t, template).game;
    if h != g {
        let n = g.entities.len() as int;
        let slot = crate::game::logic::summon::first_free_spawn(g.entities, t)->0;
        lemma_free_spawn_is_free(g.entities, t, 0);
        assert(h.entities[n].location == Location::Field(slot));
        assert(h.entities[n].owner == t);
        assert forall|i: int, j: int|
            0 <= i < j < h.entities.len() && (#[trigger] h.entities[i]).owner == (
            #[trigger] h.entities[j]).owner && h.entities[i].location is Field implies h.entities[i].location
            != h.entities[j].location by {
            assert(h.entities[i] == g.entities[i]);
            if j < n {
                assert(h.entities[j] == g.entities[j]);
            } else {
                assert(!Selector::SlotOf(t, slot).accepts(g.entities[i]));
            }
        }
    }
}

/// The slot that a search for a free slot finds is free.
proof fn lemma_free_spawn_is_free(es: Seq<CardView>, p: PlayerId, k: int)
    requires
        0 <= k,
        crate::game::logic::summon::free_spawn_from(es, p, k) is Some,
    ensures
        !crate::game::logic::summon::slot_taken(
            es,
            p,
            crate::game::logic::summon::free_spawn_from(es, p, k)->0,
        ),
    decreases 8 - k,
{
    if k < 8 && crate::game::logic::summon::slot_taken(
        es,
        p,
        crate::game::logic::summon::spawn_order()[k],
    ) {
        lemma_free_spawn_is_free(es, p, k + 1);
    }
}

/// Every step leaves the slots apart.
pub proof fn lemma_step_slots(o: Outcome, op: OpView, t: usize)
    requires
        slots_apart(o.game),
    ensures
        slots_apart(apply_op(o, op, t).game),
{
    match op {
        OpView::Draw { amount } => {
            reveal(apply_op);
            lemma_draw_many_places(o, t, amount as nat);
            if o.fault is None {
                lemma_places_kept(o.game, apply_op(o, op, t).game);
            }
        },
        OpView::Summon { template } => {
            reveal(apply_op);
            lemma_summon_slots(o, t, template);
        },
        _ => {
            lemma_plain_steps_places(o, op, t);
            lemma_places_kept(o.game, apply_op(o, op, t).game);
        },
    }
}

/// Steps on all recipients leave the slots apart.
pub proof fn lemma_all_slots(o: Outcome, op: OpView, ts: Seq<usize>)
    requires
        slots_apart(o.game),
    ensures
        slots_apart(apply_all(o, op, ts).game),
    decreases ts.len(),
{
    if ts.len() > 0 {
        lemma_all_slots(o, op, ts.drop_last());
        lemma_step_slots(apply_all(o, op, ts.drop_last()), op, ts.last());
    }
}

proof fn lemma_then_all_slots(
    o: Outcome,
    op: OpView,
    ts: std::result::Result<Seq<usize>, crate::error::Fault>,
)
    requires
        slots_apart(o.game),
    ensures
        slots_apart(then_all(o, op, ts).game),
{
    if o.fault is None && ts is Ok {
        lemma_all_slots(o, op, ts->Ok_0);
    }
}

/// No player ever has two cards on one slot: every effect but the landing of
/// a card of the hand leaves the slots apart.
pub proof fn law_effect_keeps_slots(g: GameView, e: EffectView)
    requires
        slots_apart(g),
        !(e is SummonFromHand),
    ensures
        slots_apart(effect_outcome(g, e).game),
{
    reveal(effect_outcome);
    match e {
        EffectView::MakeDraw { initiator, player, amount } => {
            lemma_then_all_slots(
                start(g),
                OpView::Draw { amount },
                resolved_player_target(g, initiator, player),
            );
        },
        EffectView::AutoDraw { player, amount } => {
            lemma_draw_many_places(start(g), player, amount as nat);
            lemma_places_kept(g, effect_outcome(g, e).game);
        },
        EffectView::DealDamage { initiator, target, amount } => {
            let o1 = then_all(
                start(g),
                OpView::DamagePlayer { amount },
                resolved_player_only(g, initiator, target),
            );
            lemma_then_all_slots(
                start(g),
                OpView::DamagePlayer { amount },
                resolved_player_only(g, initiator, target),
            );
            lemma_then_all_slots(
                o1,
                OpView::DamageEntity { initiator, amount },
                resolved_field(o1.game, initiator, target),
            );
        },
        EffectView::Destroy { initiator, target } => {
            lemma_then_all_slots(start(g), OpView::Destroy, resolved_field(g, initiator, target));
        },
        EffectView::Heal { initiator, target, amount } => {
            let o1 = then_all(
                start(g),
                OpView::HealPlayer { amount },
                resolved_player_only(g, initiator, target),
            );
            lemma_then_all_slots(
                start(g),
                OpView::HealPlayer { amount },
                resolved_player_only(g, initiator, target),
            );
            lemma_then_all_slots(
                o1,
                OpView::HealEntity { amount },
                resolved_field(o1.game, initiator, target),
            );
        },
        EffectView::Attack { initiator, target } => {
            lemma_then_all_slots(
                start(g),
                OpView::Strike { initiator },
                resolved_target(g, initiator, target),
            );
        },
        EffectView::Boost { initiator, attack, hp, target } => {
            lemma_then_all_slots(
                start(g),
                OpView::Boost { attack, hp },
                resolved_field(g, initiator, target),
            );
        },
        EffectView::IncreaseMaxMana { initiator, player, amount } => {
            lemma_then_all_slots(
                start(g),
                OpView::IncreaseMaxMana { amount },
                resolved_player_target(g, initiator, player),
            );
        },
        EffectView::RefreshMana { initiator, player, amount } => {
            lemma_then_all_slots(
                start(g),
                OpView::RefreshMana { amount },
                resolved_player_target(g, initiator, player),
            );
        },
        EffectView::Summon { initiator, side, target } => {
            lemma_then_all_slots(
                start(g),
                OpView::Summon { template: target },
                resolved_player_target(g, initiator, side),
            );
        },
        EffectView::SummonFromHand { .. } => {},
        EffectView::Win(player) => {
            assert(effect_outcome(g, e).game.entities == g.entities);
        },
    }
}

/// No player ever has two cards on one slot: in a game where no effect lands
/// a card of the hand by itself, a drain of the queue leaves the slots apart.
pub proof fn law_drain_keeps_slots(g: GameView, fuel: nat)
    requires
        slots_apart(g),
        free_of(g, Kind::Landing),
    ensures
        slots_apart(drain(g, fuel).game),
        free_of(drain(g, fuel).game, Kind::Landing),
    decreases fuel,
{
    lemma_drain_free(g, fuel, Kind::Landing);
    if g.effect_queue.len() > 0 && fuel > 0 {
        let e = g.effect_queue[0];
        let g1 = g.dequeued();
        assert(avoids(e, Kind::Landing));
        assert(slots_apart(g1)) by {
            assert(g1.entities == g.entities);
        }
        assert(cards_free(g1, Kind::Landing)) by {
            assert(g1.entities == g.entities);
        }
        law_effect_keeps_slots(g1, e);
        lemma_effect_queue(g1, e, Kind::Landing);
        let o = effect_outcome(g1, e);
        assert(all_avoid(o.game.effect_queue, Kind::Landing)) by {
            assert forall|i: int| 0 <= i < o.game.effect_queue.len() implies avoids(
                #[trigger] o.game.effect_queue[i],
                Kind::Landing,
            ) by {
                if i < g1.effect_queue.len() {
                    assert(g1.effect_queue[i] == o.game.effect_queue[i]);
                    assert(g1.effect_queue[i] == g.effect_queue[i + 1]);
                }
            }
        }
        if o.fault is None {
            law_drain_keeps_slots(o.game, (fuel - 1) as nat);
        }
    }
}

} // verus!
