//! The summon pass: which cards of the hand to play, and where.

use crate::error::{Fault, Result};
use crate::game::action::{actions_view, lemma_actions_add, Action, ActionView};
use crate::game::card::CardView;
use crate::game::logic::carried_out;
use crate::game::logic::ops::entering;
use crate::game::logic::summon::slot_taken;
use crate::game::model::{
    count, opponent_of, other_players, player_index, select_cards, start, GameView, Outcome,
    Selector,
};
use crate::game::player::PlayerInstance;
use crate::game::types::{InstanceId, PlayerId};
use crate::game::user_actions::play_monster::play_monster_outcome;
use crate::game::{after_actions, then_drained, Game};
use vstd::prelude::*;

verus! {

/// The most mana that can be spent on the first `i` of `options` with `m` mana
/// and `p` places. An option is a cost and the id of the card that has it.
pub open spec fn best(options: Seq<(usize, InstanceId)>, i: nat, m: nat, p: nat) -> nat
    decreases i,
{
    if i == 0 {
        0
    } else {
        let skip = best(options, (i - 1) as nat, m, p);
        let cost = options[i - 1].0 as nat;
        if p > 0 && cost <= m {
            let take = best(options, (i - 1) as nat, (m - cost) as nat, (p - 1) as nat) + cost;
            if take > skip {
                take
            } else {
                skip
            }
        } else {
            skip
        }
    }
}

/// Whether the option `i - 1` is played when the first `i` options are left to
/// decide with `m` mana and `p` places: where playing it spends more.
pub open spec fn takes(options: Seq<(usize, InstanceId)>, i: nat, m: nat, p: nat) -> bool {
    let cost = options[i - 1].0 as nat;
    i > 0 && p > 0 && cost <= m && best(
        options,
        (i - 1) as nat,
        (m - cost) as nat,
        (p - 1) as nat,
    ) + cost > best(options, (i - 1) as nat, m, p)
}

/// The ids of the cards played among the first `i` of `options` with `m` mana
/// and `p` places, in the order of the options.
pub open spec fn chosen(options: Seq<(usize, InstanceId)>, i: nat, m: nat, p: nat) -> Seq<
    InstanceId,
>
    decreases i,
{
    if i == 0 {
        Seq::empty()
    } else if takes(options, i, m, p) {
        chosen(
            options,
            (i - 1) as nat,
            (m - options[i - 1].0) as nat,
            (p - 1) as nat,
        ).push(options[i - 1].1)
    } else {
        chosen(options, (i - 1) as nat, m, p)
    }
}

/// The cost of the options among the first `i` that `mask` marks, added up.
pub open spec fn mask_cost(options: Seq<(usize, InstanceId)>, mask: Seq<bool>, i: nat) -> nat
    decreases i,
{
    if i == 0 {
        0
    } else {
        mask_cost(options, mask, (i - 1) as nat) + if mask[i - 1] {
            options[i - 1].0 as nat
        } else {
            0
        }
    }
}

/// How many of the first `i` options `mask` marks.
pub open spec fn mask_count(mask: Seq<bool>, i: nat) -> nat
    decreases i,
{
    if i == 0 {
        0
    } else {
        mask_count(mask, (i - 1) as nat) + if mask[i - 1] {
            1nat
        } else {
            0nat
        }
    }
}

/// No choice of options within the mana and the places spends more than `best`.
pub proof fn law_best_is_most(
    options: Seq<(usize, InstanceId)>,
    mask: Seq<bool>,
    i: nat,
    m: nat,
    p: nat,
)
    requires
        i <= options.len(),
        i <= mask.len(),
        mask_cost(options, mask, i) <= m,
        mask_count(mask, i) <= p,
    ensures
        mask_cost(options, mask, i) <= best(options, i, m, p),
    decreases i,
{
    if i > 0 {
        let cost = options[i - 1].0 as nat;
        if mask[i - 1] {
            law_best_is_most(options, mask, (i - 1) as nat, (m - cost) as nat, (p - 1) as nat);
        } else {
            law_best_is_most(options, mask, (i - 1) as nat, m, p);
        }
    }
}

/// What `best` promises is within the mana.
pub proof fn lemma_best_within(options: Seq<(usize, InstanceId)>, i: nat, m: nat, p: nat)
    requires
        i <= options.len(),
    ensures
        best(options, i, m, p) <= m,
    decreases i,
{
    if i > 0 {
        let cost = options[i - 1].0 as nat;
        lemma_best_within(options, (i - 1) as nat, m, p);
        if p > 0 && cost <= m {
            lemma_best_within(options, (i - 1) as nat, (m - cost) as nat, (p - 1) as nat);
        }
    }
}

/// The mask of the options that are played among the first `i`.
pub open spec fn chosen_mask(options: Seq<(usize, InstanceId)>, i: nat, m: nat, p: nat) -> Seq<bool>
    decreases i,
{
    if i == 0 {
        Seq::empty()
    } else if takes(options, i, m, p) {
        chosen_mask(
            options,
            (i - 1) as nat,
            (m - options[i - 1].0) as nat,
            (p - 1) as nat,
        ).push(true)
    } else {
        chosen_mask(options, (i - 1) as nat, m, p).push(false)
    }
}

/// A mask counts the same on its front part whatever comes after.
proof fn lemma_mask_front(options: Seq<(usize, InstanceId)>, mask: Seq<bool>, b: bool, i: nat)
    requires
        i <= mask.len(),
    ensures
        mask_cost(options, mask.push(b), i) == mask_cost(options, mask, i),
        mask_count(mask.push(b), i) == mask_count(mask, i),
    decreases i,
{
    if i > 0 {
        lemma_mask_front(options, mask, b, (i - 1) as nat);
        assert(mask.push(b)[i - 1] == mask[i - 1]);
    }
}

/// The cards that are played spend exactly `best`, within the mana and the
/// places: the choice is a best one.
pub proof fn law_chosen_spends_best(options: Seq<(usize, InstanceId)>, i: nat, m: nat, p: nat)
    requires
        i <= options.len(),
    ensures
        chosen_mask(options, i, m, p).len() == i,
        mask_cost(options, chosen_mask(options, i, m, p), i) == best(options, i, m, p),
        mask_cost(options, chosen_mask(options, i, m, p), i) <= m,
        mask_count(chosen_mask(options, i, m, p), i) <= p,
        mask_count(chosen_mask(options, i, m, p), i) == chosen(options, i, m, p).len(),
    decreases i,
{
    if i > 0 {
        let cost = options[i - 1].0 as nat;
        if takes(options, i, m, p) {
            let rest = chosen_mask(options, (i - 1) as nat, (m - cost) as nat, (p - 1) as nat);
            law_chosen_spends_best(options, (i - 1) as nat, (m - cost) as nat, (p - 1) as nat);
            lemma_mask_front(options, rest, true, (i - 1) as nat);
        } else {
            let rest = chosen_mask(options, (i - 1) as nat, m, p);
            law_chosen_spends_best(options, (i - 1) as nat, m, p);
            lemma_mask_front(options, rest, false, (i - 1) as nat);
        }
        lemma_best_within(options, i, m, p);
    }
}

/// Whether `row` holds `best` for the first `i` options, `m` mana and each number of places.
pub open spec fn row_filled(
    row: Seq<usize>,
    options: Seq<(usize, InstanceId)>,
    i: nat,
    m: nat,
    places: nat,
) -> bool {
    &&& row.len() == places + 1
    &&& forall|p: int| 0 <= p <= places ==> #[trigger] row[p] == best(options, i, m, p as nat)
}

/// Whether `layer` holds `best` for the first `i` options and each amount of
/// mana and number of places.
pub open spec fn layer_filled(
    layer: Seq<Vec<usize>>,
    options: Seq<(usize, InstanceId)>,
    i: nat,
    mana: nat,
    places: nat,
) -> bool {
    &&& layer.len() == mana + 1
    &&& forall|m: int|
        0 <= m <= mana ==> row_filled((#[trigger] layer[m])@, options, i, m as nat, places)
}

/// The row of `best` for the first `i` options and `m` mana, from the layer before.
fn fill_row(
    below: &Vec<Vec<usize>>,
    options: &Vec<(usize, InstanceId)>,
    i: usize,
    m: usize,
    mana_max: usize,
    place_available: usize,
) -> (row: Vec<usize>)
    requires
        1 <= i <= options.len(),
        m <= mana_max,
        place_available < usize::MAX,
        layer_filled(below@, options@, (i - 1) as nat, mana_max as nat, place_available as nat),
    ensures
        row_filled(row@, options@, i as nat, m as nat, place_available as nat),
{
    let cost = options[i - 1].0;
    let mut row: Vec<usize> = Vec::new();
    let mut p: usize = 0;
    while p <= place_available
        invariant
            p <= place_available + 1,
            place_available < usize::MAX,
            1 <= i <= options.len(),
            m <= mana_max,
            cost == options@[i - 1].0,
            layer_filled(
                below@,
                options@,
                (i - 1) as nat,
                mana_max as nat,
                place_available as nat,
            ),
            row.len() == p,
            forall|x: int| 0 <= x < p ==> #[trigger] row@[x] == best(
                options@,
                i as nat,
                m as nat,
                x as nat,
            ),
        decreases place_available + 1 - p,
    {
        assert(row_filled(
            below@[m as int]@,
            options@,
            (i - 1) as nat,
            m as nat,
            place_available as nat,
        ));
        let mut value = below[m][p];
        assert(value == best(options@, (i - 1) as nat, m as nat, p as nat));
        if p > 0 && cost <= m {
            assert(row_filled(
                below@[m - cost]@,
                options@,
                (i - 1) as nat,
                (m - cost) as nat,
                place_available as nat,
            ));
            let under = below[m - cost][p - 1];
            proof {
                lemma_best_within(
                    options@,
                    (i - 1) as nat,
                    (m - cost) as nat,
                    (p - 1) as nat,
                );
            }
            let with_current = under + cost;
            if with_current > value {
                value = with_current;
            }
        }
        row.push(value);
        p += 1;
    }
    row
}

/// The layer of `best` for the first `i` options, from the layer before.
fn fill_layer(
    below: &Vec<Vec<usize>>,
    options: &Vec<(usize, InstanceId)>,
    i: usize,
    mana_max: usize,
    place_available: usize,
) -> (layer: Vec<Vec<usize>>)
    requires
        1 <= i <= options.len(),
        mana_max < usize::MAX,
        place_available < usize::MAX,
        layer_filled(below@, options@, (i - 1) as nat, mana_max as nat, place_available as nat),
    ensures
        layer_filled(layer@, options@, i as nat, mana_max as nat, place_available as nat),
{
    let mut layer: Vec<Vec<usize>> = Vec::new();
    let mut m: usize = 0;
    while m <= mana_max
        invariant
            m <= mana_max + 1,
            mana_max < usize::MAX,
            place_available < usize::MAX,
            1 <= i <= options.len(),
            layer_filled(
                below@,
                options@,
                (i - 1) as nat,
                mana_max as nat,
                place_available as nat,
            ),
            layer.len() == m,
            forall|x: int|
                0 <= x < m ==> row_filled(
                    (#[trigger] layer@[x])@,
                    options@,
                    i as nat,
                    x as nat,
                    place_available as nat,
                ),
        decreases mana_max + 1 - m,
    {
        let row = fill_row(below, options, i, m, mana_max, place_available);
        layer.push(row);
        m += 1;
    }
    layer
}

/// The layer of `best` for no option at all: nothing can be spent.
fn empty_layer(options: &Vec<(usize, InstanceId)>, mana_max: usize, place_available: usize) -> (layer:
    Vec<Vec<usize>>)
    requires
        mana_max < usize::MAX,
        place_available < usize::MAX,
    ensures
        layer_filled(layer@, options@, 0, mana_max as nat, place_available as nat),
{
    let mut layer: Vec<Vec<usize>> = Vec::new();
    let mut m: usize = 0;
    while m <= mana_max
        invariant
            m <= mana_max + 1,
            mana_max < usize::MAX,
            place_available < usize::MAX,
            layer.len() == m,
            forall|x: int|
                0 <= x < m ==> row_filled(
                    (#[trigger] layer@[x])@,
                    options@,
                    0,
                    x as nat,
                    place_available as nat,
                ),
        decreases mana_max + 1 - m,
    {
        let mut row: Vec<usize> = Vec::new();
        let mut p: usize = 0;
        while p <= place_available
            invariant
                p <= place_available + 1,
                place_available < usize::MAX,
                row.len() == p,
                forall|x: int| 0 <= x < p ==> #[trigger] row@[x] == 0,
            decreases place_available + 1 - p,
        {
            row.push(0);
            p += 1;
        }
        layer.push(row);
        m += 1;
    }
    layer
}

/// Turns a list of ids around.
fn reversed(v: &Vec<InstanceId>) -> (r: Vec<InstanceId>)
    ensures
        r@ == v@.reverse(),
{
    let mut out: Vec<InstanceId> = Vec::new();
    let mut k: usize = v.len();
    while k > 0
        invariant
            k <= v.len(),
            out.len() == v.len() - k,
            forall|x: int| 0 <= x < out.len() ==> out@[x] == v@[v.len() - 1 - x],
        decreases k,
    {
        k -= 1;
        out.push(v[k]);
    }
    assert(out@ =~= v@.reverse());
    out
}

/// A budget as the choice of cards counts it: the number itself, short of the
/// greatest number that the machine counts.
pub open spec fn planning_mana(mana: usize) -> usize {
    if mana == usize::MAX {
        (usize::MAX - 1) as usize
    } else {
        mana
    }
}

/// Chooses the cards to play so that the most mana is spent: at most
/// `place_available` of `options`, at a total cost of at most `mana_max`.
///
/// Among the choices that spend the most, the one is taken that plays an option
/// only where leaving it out would spend less, deciding from the last option
/// back to the first. The ids come out in the order of the options.
pub fn maximize_mana_spend(
    options: Vec<(usize, InstanceId)>,
    mana_max: usize,
    place_available: usize,
) -> (r: Vec<InstanceId>)
    ensures
        r@ == chosen(
            options@,
            options@.len(),
            planning_mana(mana_max) as nat,
            planning_mana(place_available) as nat,
        ),
{
    let mana_max = if mana_max == usize::MAX {
        usize::MAX - 1
    } else {
        mana_max
    };
    let place_available = if place_available == usize::MAX {
        usize::MAX - 1
    } else {
        place_available
    };
    let n = options.len();
    let mut table: Vec<Vec<Vec<usize>>> = Vec::new();
    table.push(empty_layer(&options, mana_max, place_available));
    let mut filled: usize = 0;
    while filled < n
        invariant
            filled <= n,
            n == options.len(),
            mana_max < usize::MAX,
            place_available < usize::MAX,
            table.len() == filled + 1,
            forall|a: int|
                0 <= a <= filled ==> layer_filled(
                    (#[trigger] table@[a])@,
                    options@,
                    a as nat,
                    mana_max as nat,
                    place_available as nat,
                ),
        decreases n - filled,
    {
        let layer = fill_layer(&table[filled], &options, filled + 1, mana_max, place_available);
        table.push(layer);
        filled += 1;
    }
    let mut result: Vec<InstanceId> = Vec::new();
    let mut remaining_mana = mana_max;
    let mut remaining_places = place_available;
    let mut i: usize = n;
    while i > 0
        invariant
            i <= n,
            n == options.len(),
            table.len() == n + 1,
            remaining_mana <= mana_max,
            remaining_places <= place_available,
            forall|a: int|
                0 <= a <= n ==> layer_filled(
                    (#[trigger] table@[a])@,
                    options@,
                    a as nat,
                    mana_max as nat,
                    place_available as nat,
                ),
            chosen(options@, n as nat, mana_max as nat, place_available as nat) == chosen(
                options@,
                i as nat,
                remaining_mana as nat,
                remaining_places as nat,
            ) + result@.reverse(),
        decreases i,
    {
        let (cost, entity_id) = options[i - 1];
        let ghost before = result@;
        assert(layer_filled(
            table@[i - 1]@,
            options@,
            (i - 1) as nat,
            mana_max as nat,
            place_available as nat,
        ));
        let mut take = false;
        if remaining_places > 0 && cost <= remaining_mana {
            assert(row_filled(
                table@[i - 1]@[remaining_mana as int]@,
                options@,
                (i - 1) as nat,
                remaining_mana as nat,
                place_available as nat,
            ));
            assert(row_filled(
                table@[i - 1]@[remaining_mana - cost]@,
                options@,
                (i - 1) as nat,
                (remaining_mana - cost) as nat,
                place_available as nat,
            ));
            let without = table[i - 1][remaining_mana][remaining_places];
            let under = table[i - 1][remaining_mana - cost][remaining_places - 1];
            proof {
                lemma_best_within(
                    options@,
                    (i - 1) as nat,
                    (remaining_mana - cost) as nat,
                    (remaining_places - 1) as nat,
                );
            }
            let with = under + cost;
            take = with > without;
        }
        assert(take == takes(
            options@,
            i as nat,
            remaining_mana as nat,
            remaining_places as nat,
        ));
        if take {
            result.push(entity_id);
            remaining_mana -= cost;
            remaining_places -= 1;
            assert(result@.reverse() =~= seq![entity_id] + before.reverse());
            assert(chosen(
                options@,
                (i - 1) as nat,
                remaining_mana as nat,
                remaining_places as nat,
            ).push(entity_id) + before.reverse() =~= chosen(
                options@,
                (i - 1) as nat,
                remaining_mana as nat,
                remaining_places as nat,
            ) + result@.reverse());
        }
        i -= 1;
    }
    assert(Seq::<InstanceId>::empty() + result@.reverse() =~= result@.reverse());
    reversed(&result)
}

/// The opponent of a player is another player of the game.
pub proof fn lemma_opponent_differs(ps: Seq<PlayerInstance>, id: PlayerId)
    requires
        opponent_of(ps, id) is Some,
    ensures
        opponent_of(ps, id)->0 != id,
        exists|j: int| 0 <= j < ps.len() && (#[trigger] ps[j]).player_id == opponent_of(ps, id)->0,
{
    lemma_others_differ(ps, id, 0);
}

proof fn lemma_others_differ(ps: Seq<PlayerInstance>, id: PlayerId, k: int)
    requires
        0 <= k < other_players(ps, id).len(),
    ensures
        other_players(ps, id)[k] != id,
        exists|j: int| 0 <= j < ps.len() && (#[trigger] ps[j]).player_id == other_players(ps, id)[k],
    decreases ps.len(),
{
    if ps.len() > 0 {
        if ps.last().player_id != id && k == other_players(ps, id).len() - 1 {
            assert(ps[ps.len() - 1].player_id == other_players(ps, id)[k]);
        } else {
            lemma_others_differ(ps.drop_last(), id, k);
            let j = choose|j: int|
                0 <= j < ps.drop_last().len() && (#[trigger] ps.drop_last()[j]).player_id
                    == other_players(ps.drop_last(), id)[k];
            assert(ps[j] == ps.drop_last()[j]);
        }
    }
}

/// The slots on which the engine's player puts its cards, the middle of the
/// board first. The last slot of the board is never used.
pub open spec fn ai_slot_order() -> Seq<usize> {
    seq![3usize, 2usize, 4usize, 1usize, 5usize, 0usize, 6usize]
}

/// The slot that the engine's player tries at the turn `k`.
pub(crate) fn ai_slot(k: usize) -> (slot: usize)
    requires
        k < 7,
    ensures
        slot == ai_slot_order()[k as int],
{
    if k == 0 {
        3
    } else if k == 1 {
        2
    } else if k == 2 {
        4
    } else if k == 3 {
        1
    } else if k == 4 {
        5
    } else if k == 5 {
        0
    } else {
        6
    }
}

/// The slots that `p` has free among the first `k` that the engine tries, in that order.
pub open spec fn free_slots_upto(es: Seq<CardView>, p: PlayerId, k: nat) -> Seq<usize>
    decreases k,
{
    if k == 0 {
        Seq::empty()
    } else if slot_taken(es, p, ai_slot_order()[k - 1]) {
        free_slots_upto(es, p, (k - 1) as nat)
    } else {
        free_slots_upto(es, p, (k - 1) as nat).push(ai_slot_order()[k - 1])
    }
}

/// The cost and the id of each card of `cards`, in order.
pub open spec fn options_of(cards: Seq<CardView>) -> Seq<(usize, InstanceId)> {
    cards.map_values(|c: CardView| (c.cost, c.id))
}

/// The first `n` of `cards` played by `owner`, each on the slot of `slots` at
/// its place, with no target chosen. The first play that is refused stops the row.
pub open spec fn play_each(
    o: Outcome,
    owner: PlayerId,
    cards: Seq<InstanceId>,
    slots: Seq<usize>,
    n: nat,
) -> Outcome
    decreases n,
{
    if n == 0 {
        o
    } else {
        let before = play_each(o, owner, cards, slots, (n - 1) as nat);
        if before.fault is Some {
            before
        } else {
            after_actions(
                before.actions,
                play_monster_outcome(before.game, owner, cards[n - 1], slots[n - 1], None),
            )
        }
    }
}

/// The cards that the summon pass of `player_id` plays in the state `g`: of the
/// monsters in the hand, a choice that spends the most mana on at most as many
/// cards as bring the field to seven.
pub open spec fn summon_choice(g: GameView, player_id: PlayerId) -> Seq<InstanceId> {
    let options = options_of(select_cards(g.entities, Selector::HandMonsterOf(player_id)));
    chosen(
        options,
        options.len(),
        planning_mana(g.players[player_index(g.players, player_id)->0].mana) as nat,
        (7 - count(g.entities, Selector::FieldOf(player_id))) as nat,
    )
}

/// What the summon pass of `player_id` comes to: with fewer than seven cards on
/// the field, the chosen cards are played on the free slots nearest the
/// middle; then the queue is drained.
pub open spec fn summon_pass(g: GameView, player_id: PlayerId) -> Outcome {
    if count(g.entities, Selector::FieldOf(player_id)) < 7 {
        match player_index(g.players, player_id) {
            None => start(g).stop(Fault::PlayerNotFound(player_id)),
            Some(_) => {
                let cards = summon_choice(g, player_id);
                let slots = free_slots_upto(g.entities, player_id, 7);
                let n = if cards.len() <= slots.len() {
                    cards.len()
                } else {
                    slots.len()
                };
                then_drained(play_each(start(g), player_id, cards, slots, n))
            },
        }
    } else {
        then_drained(start(g))
    }
}

impl Game {
    /// The slots that `p` has free among those that the engine tries, in that order.
    pub fn free_ai_slots(&self, p: PlayerId) -> (r: Vec<usize>)
        ensures
            r@ == free_slots_upto(self@.entities, p, 7),
    {
        let mut out: Vec<usize> = Vec::new();
        let mut k: usize = 0;
        while k < 7
            invariant
                k <= 7,
                out@ == free_slots_upto(self@.entities, p, k as nat),
            decreases 7 - k,
        {
            let slot = ai_slot(k);
            if self.find_first(Selector::SlotOf(p, slot)).is_none() {
                out.push(slot);
            }
            k += 1;
        }
        out
    }

    /// The cost and the id of each monster in the hand of `p`, in order.
    pub fn hand_options(&self, p: PlayerId) -> (r: Vec<(usize, InstanceId)>)
        ensures
            r@ == options_of(select_cards(self@.entities, Selector::HandMonsterOf(p))),
    {
        let cards = self.find_cards(Selector::HandMonsterOf(p));
        let mut out: Vec<(usize, InstanceId)> = Vec::new();
        let mut k: usize = 0;
        while k < cards.len()
            invariant
                k <= cards.len(),
                out.len() == k,
                forall|j: int| 0 <= j < k ==> out@[j] == (cards@[j]@.cost, cards@[j]@.id),
            decreases cards.len() - k,
        {
            out.push((cards[k].cost, cards[k].id));
            k += 1;
        }
        assert(out@ =~= options_of(
            cards@.map_values(|c: &crate::game::card::CardInstance| c@),
        ));
        out
    }
}

/// Plays the summon pass of `player_id`, and reports what happened.
pub fn summon_max_cards(game_state: &mut Game, player_id: PlayerId) -> (r: Result<Vec<Action>>)
    ensures
        carried_out(final(game_state)@, r, summon_pass(old(game_state)@, player_id)),
{
    let mut actions: Vec<Action> = Vec::new();
    assert(actions_view(actions@) =~= Seq::<ActionView>::empty());
    let field_size = game_state.find_ids(Selector::FieldOf(player_id)).len();
    let mut done: Result<()> = Ok(());
    if field_size < 7 {
        let current_mana = match game_state.find_player(player_id) {
            None => {
                return Err(Fault::PlayerNotFound(player_id).to_error());
            },
            Some(i) => game_state.players[i].mana,
        };
        let cards_to_play = maximize_mana_spend(
            game_state.hand_options(player_id),
            current_mana,
            7 - field_size,
        );
        let free_positions = game_state.free_ai_slots(player_id);
        let n = if cards_to_play.len() <= free_positions.len() {
            cards_to_play.len()
        } else {
            free_positions.len()
        };
        let ghost g0 = game_state@;
        let mut k: usize = 0;
        while k < n && done.is_ok()
            invariant
                k <= n,
                n <= cards_to_play.len(),
                n <= free_positions.len(),
                crate::game::logic::ops::produced(
                    game_state@,
                    actions@,
                    done,
                    play_each(
                        start(g0),
                        player_id,
                        cards_to_play@,
                        free_positions@,
                        if done is Ok {
                            k as nat
                        } else {
                            n as nat
                        },
                    ),
                ),
            decreases n - k,
        {
            let ghost before = entering(game_state@, actions@);
            match game_state.play_monster(player_id, cards_to_play[k], free_positions[k], None) {
                Err(e) => {
                    proof {
                        lemma_play_each_stopped(
                            start(g0),
                            player_id,
                            cards_to_play@,
                            free_positions@,
                            k as nat + 1,
                            n as nat,
                        );
                    }
                    done = Err(e);
                },
                Ok(mut played) => {
                    proof {
                        lemma_actions_add(actions@, played@);
                    }
                    actions.append(&mut played);
                },
            }
            k += 1;
        }
    }
    match done {
        Err(e) => Err(e),
        Ok(()) => {
            match game_state.compute_commands() {
                Err(e) => Err(e),
                Ok(mut summon_actions) => {
                    proof {
                        lemma_actions_add(actions@, summon_actions@);
                    }
                    actions.append(&mut summon_actions);
                    Ok(actions)
                },
            }
        },
    }
}

/// A row of plays that has stopped stays as it is however long the row.
pub proof fn lemma_play_each_stopped(
    o: Outcome,
    owner: PlayerId,
    cards: Seq<InstanceId>,
    slots: Seq<usize>,
    k: nat,
    n: nat,
)
    requires
        k <= n,
        play_each(o, owner, cards, slots, k).fault is Some,
    ensures
        play_each(o, owner, cards, slots, n) == play_each(o, owner, cards, slots, k),
    decreases n - k,
{
    if k < n {
        lemma_play_each_stopped(o, owner, cards, slots, k, (n - 1) as nat);
    }
}

/// Every card that is chosen is one of the options.
pub proof fn lemma_chosen_from_options(
    options: Seq<(usize, InstanceId)>,
    i: nat,
    m: nat,
    p: nat,
    k: int,
)
    requires
        i <= options.len(),
        0 <= k < chosen(options, i, m, p).len(),
    ensures
        exists|j: int| 0 <= j < i && (#[trigger] options[j]).1 == chosen(options, i, m, p)[k],
    decreases i,
{
    if i > 0 {
        if takes(options, i, m, p) {
            let rest = chosen(
                options,
                (i - 1) as nat,
                (m - options[i - 1].0) as nat,
                (p - 1) as nat,
            );
            if k < rest.len() {
                lemma_chosen_from_options(
                    options,
                    (i - 1) as nat,
                    (m - options[i - 1].0) as nat,
                    (p - 1) as nat,
                    k,
                );
                let j = choose|j: int| 0 <= j < i - 1 && (#[trigger] options[j]).1 == rest[k];
                assert(options[j].1 == chosen(options, i, m, p)[k]);
            } else {
                assert(options[i - 1].1 == chosen(options, i, m, p)[k]);
            }
        } else {
            lemma_chosen_from_options(options, (i - 1) as nat, m, p, k);
            let j = choose|j: int|
                0 <= j < i - 1 && (#[trigger] options[j]).1 == chosen(
                    options,
                    (i - 1) as nat,
                    m,
                    p,
                )[k];
            assert(options[j].1 == chosen(options, i, m, p)[k]);
        }
    }
}

} // verus!
