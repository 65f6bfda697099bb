//! Summoning: a new card, made from a template, enters the field.

use crate::collection::types::{
    CardTemplate, CardTemplateView, CardTypeTemplate, CardTypeTemplateView,
};
use crate::error::{Fault, Result};
use crate::game::action::{Action, ActionView};
use crate::game::card::{
    contains_keyword, has_keyword, CardInstance, CardTypeInstance, CardView, Keyword, MonsterView,
};
use crate::game::effects::{clone_effects, PlayerTarget};
use crate::game::logic::ops::{apply_to_all, entering, produced, then_all, Op, OpView};
use crate::game::logic::{resolve_player_target, resolved_player_target};
use crate::game::model::{any_accepted, count, opponent_of, start, GameView, Outcome, Selector};
use crate::game::types::{InstanceId, Location, PlayerId};
use crate::game::{record, Game};
use vstd::prelude::*;

verus! {

/// The slots that a summoned card tries, the middle of the board first.
pub const SPAWN_POSITIONS: [usize; 8] = [3, 4, 2, 5, 0, 1, 6, 7];

/// The slots that a summoned card tries, in order.
pub open spec fn spawn_order() -> Seq<usize> {
    seq![3usize, 4usize, 2usize, 5usize, 0usize, 1usize, 6usize, 7usize]
}

/// The slot tried at the turn `k`.
pub(crate) fn spawn_slot(k: usize) -> (slot: usize)
    requires
        k < 8,
    ensures
        slot == spawn_order()[k as int],
{
    if k == 0 {
        3
    } else if k == 1 {
        4
    } else if k == 2 {
        2
    } else if k == 3 {
        5
    } else if k == 4 {
        0
    } else if k == 5 {
        1
    } else if k == 6 {
        6
    } else {
        7
    }
}

/// Whether the player `p` has a card on `slot`.
pub open spec fn slot_taken(es: Seq<CardView>, p: PlayerId, slot: usize) -> bool {
    any_accepted(es, Selector::SlotOf(p, slot))
}

/// The first slot from the turn `k` on that `p` has free.
pub open spec fn free_spawn_from(es: Seq<CardView>, p: PlayerId, k: int) -> Option<usize>
    decreases 8 - k,
{
    if k < 0 || k >= 8 {
        None
    } else if !slot_taken(es, p, spawn_order()[k]) {
        Some(spawn_order()[k])
    } else {
        free_spawn_from(es, p, k + 1)
    }
}

/// The slot on which a card summoned for `p` lands.
pub open spec fn first_free_spawn(es: Seq<CardView>, p: PlayerId) -> Option<usize> {
    free_spawn_from(es, p, 0)
}

/// One more than the greatest id among `es`.
pub open spec fn id_bound(es: Seq<CardView>) -> nat
    decreases es.len(),
{
    if es.len() == 0 {
        0
    } else {
        let rest = id_bound(es.drop_last());
        if es.last().id + 1 > rest {
            (es.last().id + 1) as nat
        } else {
            rest
        }
    }
}

/// The id of the next summoned card: past ten thousand and past the number of
/// cards, and greater than every id in use.
pub open spec fn fresh_id(es: Seq<CardView>) -> Option<InstanceId> {
    let base = 10000 + es.len();
    let id = if id_bound(es) > base {
        id_bound(es) as int
    } else {
        base as int
    };
    if id <= usize::MAX {
        Some(id as usize)
    } else {
        None
    }
}

/// A summoned card gets an id of its own: no card in use has the fresh id.
pub proof fn law_fresh_id_is_new(es: Seq<CardView>)
    requires
        fresh_id(es) is Some,
    ensures
        !any_accepted(es, Selector::WithId(fresh_id(es)->0)),
{
    lemma_id_bound(es);
}

/// Every id in use is below the bound.
pub proof fn lemma_id_bound(es: Seq<CardView>)
    ensures
        forall|i: int| 0 <= i < es.len() ==> (#[trigger] es[i]).id < id_bound(es),
    decreases es.len(),
{
    if es.len() > 0 {
        lemma_id_bound(es.drop_last());
        assert forall|i: int| 0 <= i < es.len() implies (#[trigger] es[i]).id < id_bound(es) by {
            if i < es.len() - 1 {
                assert(es.drop_last()[i] == es[i]);
            }
        }
    }
}

/// A summon for the player `t`. With eight cards on the field, or no slot free,
/// nothing happens. The new monster lands asleep unless it has Charge, and
/// what it does on play is queued.
#[verifier::opaque]
pub open spec fn summon_step(o: Outcome, t: PlayerId, template: CardTemplateView) -> Outcome {
    let es = o.game.entities;
    if count(es, Selector::FieldOf(t)) == 8 {
        o
    } else {
        match first_free_spawn(es, t) {
            None => o,
            Some(pos) => match template.card_type {
                CardTypeTemplateView::Spell(_) => o.stop(Fault::SummonSpell),
                CardTypeTemplateView::Monster(_) => match fresh_id(es) {
                    None => o.stop(Fault::NoFreshId),
                    Some(id) => match opponent_of(o.game.players, t) {
                        None => o.stop(Fault::OpponentNotFound(t)),
                        Some(q) => {
                            let shown = template.instantiate(id, t, q).at(Location::Field(pos));
                            let m = shown.card_type->Monster_0;
                            let placed = if has_keyword(m.keywords, Keyword::Charge) {
                                shown.with_monster(MonsterView { asleep: false, ..m })
                            } else {
                                shown
                            };
                            let g1 = o.game.with_new_entity(placed);
                            let summoned = ActionView::Summon {
                                source: Location::Deck,
                                destination: pos,
                                target: shown,
                                owner: t,
                            };
                            if m.on_play.len() > 0 {
                                o.at(g1.enqueue_all(m.on_play)).record(summoned).record(
                                    ActionView::TriggerOnPlay(id),
                                )
                            } else {
                                o.at(g1).record(summoned)
                            }
                        },
                    },
                },
            },
        }
    }
}

impl Game {
    /// The slot on which a card summoned for `p` lands.
    pub fn free_spawn_slot(&self, p: PlayerId) -> (r: Option<usize>)
        ensures
            r == first_free_spawn(self@.entities, p),
    {
        let mut k: usize = 0;
        while k < 8
            invariant
                k <= 8,
                first_free_spawn(self@.entities, p) == free_spawn_from(self@.entities, p, k as int),
            decreases 8 - k,
        {
            let slot = spawn_slot(k);
            if self.find_first(Selector::SlotOf(p, slot)).is_none() {
                return Some(slot);
            }
            k += 1;
        }
        None
    }

    /// The id of the next summoned card.
    pub fn next_fresh_id(&self) -> (r: Option<InstanceId>)
        ensures
            r == fresh_id(self@.entities),
    {
        let mut bound: u128 = 0;
        let mut i: usize = 0;
        while i < self.entities.len()
            invariant
                i <= self.entities.len(),
                bound == id_bound(self@.entities.take(i as int)),
                bound <= usize::MAX + 1,
            decreases self.entities.len() - i,
        {
            proof {
                assert(self@.entities.take(i + 1).drop_last() =~= self@.entities.take(i as int));
            }
            let above: u128 = self.entities[i].id as u128 + 1;
            if above > bound {
                bound = above;
            }
            i += 1;
        }
        assert(self@.entities.take(i as int) =~= self@.entities);
        let base: u128 = 10000 + self.entities.len() as u128;
        let id: u128 = if bound > base {
            bound
        } else {
            base
        };
        if id <= usize::MAX as u128 {
            Some(id as usize)
        } else {
            None
        }
    }
}

/// Summons one card made from `template` for the player `t`.
pub fn summon_one(game: &mut Game, actions: &mut Vec<Action>, t: PlayerId, template: &CardTemplate) -> (r:
    Result<()>)
    ensures
        produced(
            final(game)@,
            final(actions)@,
            r,
            summon_step(entering(old(game)@, old(actions)@), t, template@),
        ),
{
    proof {
        reveal(summon_step);
    }
    if game.find_ids(Selector::FieldOf(t)).len() == 8 {
        return Ok(());
    }
    let pos = match game.free_spawn_slot(t) {
        None => {
            return Ok(());
        },
        Some(pos) => pos,
    };
    if let CardTypeTemplate::Spell(_) = &template.card_type {
        return Err(Fault::SummonSpell.to_error());
    }
    let id = match game.next_fresh_id() {
        None => {
            return Err(Fault::NoFreshId.to_error());
        },
        Some(id) => id,
    };
    let q = match game.opponent_id(t) {
        None => {
            return Err(Fault::OpponentNotFound(t).to_error());
        },
        Some(q) => q,
    };
    let mut card = CardInstance::new(id, t, template, q);
    card.location = Location::Field(pos);
    let shown = card.clone();
    let on_play = match &mut card.card_type {
        CardTypeInstance::Monster(m) => {
            if contains_keyword(&m.keywords, Keyword::Charge) {
                m.asleep = false;
            }
            clone_effects(&m.on_play)
        },
        CardTypeInstance::Spell(_) => Vec::new(),
    };
    game.add_entity(card);
    record(actions, Action::Summon { source: Location::Deck, destination: pos, target: shown, owner: t });
    if on_play.len() > 0 {
        record(actions, Action::TriggerOnPlay(id));
        game.enqueue_copies(&on_play);
    }
    Ok(())
}

/// A summon for each player that `side` names, seen from `initiator`.
pub open spec fn summon_outcome(
    g: GameView,
    initiator: InstanceId,
    side: PlayerTarget,
    template: CardTemplateView,
) -> Outcome {
    then_all(start(g), OpView::Summon { template }, resolved_player_target(g, initiator, side))
}

/// Summons one card made from `template` for each player that `side` names.
pub fn compute(
    context: &mut Game,
    initiator: &InstanceId,
    side: &PlayerTarget,
    template: &CardTemplate,
) -> (r: Result<Vec<Action>>)
    ensures
        crate::game::logic::carried_out(
            final(context)@,
            r,
            summon_outcome(old(context)@, *initiator, *side, template@),
        ),
{
    let mut actions: Vec<Action> = Vec::new();
    assert(entering(context@, actions@) == start(context@)) by {
        assert(crate::game::action::actions_view(actions@) =~= Seq::<ActionView>::empty());
    }
    let targets = match resolve_player_target(*initiator, side, context) {
        Err(e) => {
            return Err(e);
        },
        Ok(targets) => targets,
    };
    match apply_to_all(context, &mut actions, &Op::Summon { template }, &targets) {
        Err(e) => Err(e),
        Ok(()) => Ok(actions),
    }
}

} // verus!
