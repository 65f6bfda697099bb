//! The attacks that the rules allow to the engine's player.

use crate::error::{Fault, Result};
use crate::game::card::{
    CardInstance, CardTypeInstance, CardTypeView, CardView, MonsterInstance, MonsterView,
};
use crate::game::model::{
    is_first, is_player, lemma_first_accepted, lemma_select_len, opponent_of, player_index,
    select_cards, select_ids, GameView, Selector,
};
use crate::game::types::{InstanceId, PlayerId};
use crate::game::action::{actions_view, lemma_actions_add, Action, ActionView};
use crate::game::logic::carried_out;
use crate::game::model::{start, Outcome};
use crate::game::{
    after_actions, aim_check, and_then, attack_check, attack_outcome, attack_result, drain,
    has_defender, readiness_check, then_drained, DRAIN_LIMIT, Game,
};
use crate::game::logic::laws::{distinct_players, named_apart};
use crate::ia::{get_opponent_id, IaBehavior};
use vstd::prelude::*;

verus! {

/// The monsters of `player_id` that may attack now, in order.
pub fn get_available_attackers(game: &Game, player_id: PlayerId) -> (r: Vec<InstanceId>)
    ensures
        r@ == select_ids(game@.entities, Selector::Ready(player_id)),
{
    game.find_ids(Selector::Ready(player_id))
}

/// What `player_id` may attack in the state `g`: the opposing hero while no
/// monster shields it, and then every monster on the opposing field.
pub open spec fn attack_targets(g: GameView, player_id: PlayerId) -> std::result::Result<
    Seq<usize>,
    Fault,
> {
    match opponent_of(g.players, player_id) {
        None => Err(Fault::AiOpponentNotFound(player_id)),
        Some(q) => Ok(
            if has_defender(g.entities, q) {
                select_ids(g.entities, Selector::FieldOf(q))
            } else {
                seq![q] + select_ids(g.entities, Selector::FieldOf(q))
            },
        ),
    }
}

/// Lists what `player_id` may attack.
pub fn get_attack_targets(game: &Game, player_id: PlayerId) -> (r: Result<Vec<usize>>)
    ensures
        match r {
            Ok(v) => attack_targets(game@, player_id) == Ok::<Seq<usize>, Fault>(v@),
            Err(e) => attack_targets(game@, player_id) is Err && e@ == attack_targets(
                game@,
                player_id,
            )->Err_0.error_view(),
        },
{
    let opponent_id = match get_opponent_id(game, player_id) {
        Err(e) => {
            return Err(e);
        },
        Ok(q) => q,
    };
    let monsters = game.find_ids(Selector::FieldOf(opponent_id));
    let mut targets: Vec<usize> = Vec::new();
    if !game.defended(opponent_id) {
        targets.push(opponent_id);
    }
    let ghost head = targets@;
    let mut k: usize = 0;
    while k < monsters.len()
        invariant
            k <= monsters.len(),
            targets@ == head + monsters@.take(k as int),
        decreases monsters.len() - k,
    {
        targets.push(monsters[k]);
        k += 1;
        assert(targets@ =~= head + monsters@.take(k as int));
    }
    assert(monsters@.take(k as int) =~= monsters@);
    assert(head =~= if has_defender(game@.entities, opponent_id) {
        Seq::<usize>::empty()
    } else {
        seq![opponent_id]
    });
    assert(Seq::<usize>::empty() + monsters@ =~= monsters@);
    Ok(targets)
}

/// The attack of all the monsters on the field of the player against whom
/// `player_id` plays, added up, and `usize::MAX` where the sum is greater.
pub open spec fn threat(g: GameView, player_id: PlayerId) -> std::result::Result<usize, Fault> {
    match opponent_of(g.players, player_id) {
        None => Err(Fault::AiOpponentNotFound(player_id)),
        Some(q) => Ok(capped(total_attack(select_cards(g.entities, Selector::FieldOf(q))))),
    }
}

/// `n`, or `usize::MAX` where `n` is greater.
pub open spec fn capped(n: nat) -> usize {
    if n > usize::MAX {
        usize::MAX
    } else {
        n as usize
    }
}

/// The attack of the monsters among `cards`, added up.
pub open spec fn total_attack(cards: Seq<CardView>) -> nat
    decreases cards.len(),
{
    if cards.len() == 0 {
        0
    } else {
        total_attack(cards.drop_last()) + match cards.last().card_type {
            CardTypeView::Monster(m) => m.attack as nat,
            CardTypeView::Spell(_) => 0,
        }
    }
}

/// Adds up the attack of the monsters that stand against `player_id`.
pub fn enemy_total_attack(game: &Game, player_id: PlayerId) -> (r: Result<usize>)
    ensures
        match r {
            Ok(n) => threat(game@, player_id) == Ok::<usize, Fault>(n),
            Err(e) => threat(game@, player_id) is Err && e@ == threat(
                game@,
                player_id,
            )->Err_0.error_view(),
        },
{
    let opponent_id = match get_opponent_id(game, player_id) {
        Err(e) => {
            return Err(e);
        },
        Ok(q) => q,
    };
    let field = game.find_cards(Selector::FieldOf(opponent_id));
    let ghost cards = field@.map_values(|c: &crate::game::card::CardInstance| c@);
    let mut sum: usize = 0;
    let mut k: usize = 0;
    while k < field.len()
        invariant
            k <= field.len(),
            cards == field@.map_values(|c: &crate::game::card::CardInstance| c@),
            sum == capped(total_attack(cards.take(k as int))),
        decreases field.len() - k,
    {
        proof {
            assert(cards.take(k + 1).drop_last() =~= cards.take(k as int));
            assert(cards.take(k + 1).last() == field@[k as int]@);
        }
        let attack = match &field[k].card_type {
            CardTypeInstance::Monster(m) => m.attack,
            CardTypeInstance::Spell(_) => 0,
        };
        sum = match sum.checked_add(attack) {
            Some(s) => s,
            None => usize::MAX,
        };
        k += 1;
    }
    assert(cards.take(k as int) =~= cards);
    Ok(sum)
}

/// An id that was selected is the id of a card that the selector accepts.
pub proof fn lemma_selected_is_accepted(g: GameView, sel: Selector, id: InstanceId)
    requires
        select_ids(g.entities, sel).contains(id),
    ensures
        exists|i: int|
            0 <= i < g.entities.len() && (#[trigger] g.entities[i]).id == id && sel.accepts(
                g.entities[i],
            ),
    decreases g.entities.len(),
{
    let es = g.entities;
    if es.len() > 0 {
        let rest = GameView { entities: es.drop_last(), ..g };
        let k = choose|k: int| 0 <= k < select_ids(es, sel).len() && select_ids(es, sel)[k] == id;
        if sel.accepts(es.last()) && k == select_ids(es, sel).len() - 1 {
            assert(es[es.len() - 1].id == id);
        } else {
            assert(select_ids(es.drop_last(), sel)[k] == id);
            lemma_selected_is_accepted(rest, sel, id);
            let i = choose|i: int|
                0 <= i < rest.entities.len() && (#[trigger] rest.entities[i]).id == id
                    && sel.accepts(rest.entities[i]);
            assert(es[i] == rest.entities[i]);
        }
    }
}

/// The engine's player attacks by the rules: every monster that is listed as
/// ready may attack everything that is listed as a target.
pub proof fn law_listed_attacks_are_allowed(
    g: GameView,
    player_id: PlayerId,
    attacker: InstanceId,
    target: usize,
)
    requires
        named_apart(g),
        distinct_players(g),
        attack_targets(g, player_id) is Ok,
        select_ids(g.entities, Selector::Ready(player_id)).contains(attacker),
        attack_targets(g, player_id)->Ok_0.contains(target),
    ensures
        attack_check(g, player_id, attacker, target) is None,
{
    let es = g.entities;
    let q = opponent_of(g.players, player_id)->0;
    crate::ia::summon::lemma_opponent_differs(g.players, player_id);
    assert(is_player(q)) by {
        let j = choose|j: int| 0 <= j < g.players.len() && (#[trigger] g.players[j]).player_id == q;
        assert(is_player(g.players[j].player_id));
    }
    lemma_selected_is_accepted(g, Selector::Ready(player_id), attacker);
    let i = choose|i: int|
        0 <= i < es.len() && (#[trigger] es[i]).id == attacker && Selector::Ready(
            player_id,
        ).accepts(es[i]);
    assert(is_first(es, Selector::WithId(attacker), i)) by {
        assert forall|j: int| 0 <= j < i implies !Selector::WithId(attacker).accepts(
            #[trigger] es[j],
        ) by {
            assert(es[j].id != es[i].id);
        }
    }
    lemma_first_accepted(es, Selector::WithId(attacker), i);
    let a = es[i];
    assert(readiness_check(a) is None);
    let monsters = select_ids(es, Selector::FieldOf(q));
    let k = choose|k: int|
        0 <= k < attack_targets(g, player_id)->Ok_0.len() && attack_targets(
            g,
            player_id,
        )->Ok_0[k] == target;
    if !has_defender(es, q) && k == 0 {
        assert(target == q);
        assert(aim_check(g, a, target) is None);
    } else {
        assert(monsters.contains(target)) by {
            if has_defender(es, q) {
                assert(monsters[k] == target);
            } else {
                assert(monsters[k - 1] == target);
            }
        }
        lemma_selected_is_accepted(g, Selector::FieldOf(q), target);
        let j = choose|j: int|
            0 <= j < es.len() && (#[trigger] es[j]).id == target && Selector::FieldOf(q).accepts(
                es[j],
            );
        assert(is_first(es, Selector::WithId(target), j)) by {
            assert forall|x: int| 0 <= x < j implies !Selector::WithId(target).accepts(
                #[trigger] es[x],
            ) by {
                assert(es[x].id != es[j].id);
            }
        }
        lemma_first_accepted(es, Selector::WithId(target), j);
        assert(!is_player(target));
        assert(aim_check(g, a, target) is None);
    }
}

/// The greatest health of the own hero that the ranking counts with.
pub const HEALTH_CAP: usize = 16777216;

/// The health of the own hero as the ranking counts it: at least one, and at
/// most [`HEALTH_CAP`].
pub open spec fn ranked_health(hp: usize) -> int {
    if hp < 1 {
        1
    } else if hp > HEALTH_CAP {
        HEALTH_CAP as int
    } else {
        hp as int
    }
}

/// A number as the ranking counts it.
pub open spec fn min_int(a: int, b: int) -> int {
    if a <= b {
        a
    } else {
        b
    }
}

/// What a trade is worth to a player who keeps the board: the damage dealt,
/// and the attack of the target where it dies; less the damage taken, and the
/// attack of the attacker where it dies, or five more where it lives; and two
/// for each point of health that the attacker has lost already.
pub open spec fn control_worth(a: MonsterView, t: MonsterView) -> int {
    let dealt = min_int(a.attack as int, t.hp as int);
    let received = min_int(t.attack as int, a.hp as int);
    dealt + (if dealt >= t.hp {
        t.attack as int
    } else {
        0
    }) - received + (if received >= a.hp {
        -(a.attack as int)
    } else {
        5
    }) + (if a.max_hp > a.hp {
        2 * (a.max_hp - a.hp)
    } else {
        0
    })
}

/// What a trade is worth to a player in danger: ten for each point of damage
/// dealt, and a hundred and five times its attack for a target that dies.
pub open spec fn survival_worth(a: MonsterView, t: MonsterView) -> int {
    let dealt = min_int(a.attack as int, t.hp as int);
    10 * dealt + (if dealt >= t.hp {
        100 + 5 * t.attack
    } else {
        0
    })
}

/// Twice what a trade is worth to a player who wants to finish: fifty for a
/// target that dies, else the damage dealt; less half a point for each point of
/// damage beyond the target's health.
pub open spec fn aggressive_worth_doubled(a: MonsterView, t: MonsterView) -> int {
    let dealt = min_int(a.attack as int, t.hp as int);
    (if dealt >= t.hp {
        100
    } else {
        2 * dealt
    }) - (if a.attack > t.hp {
        a.attack - t.hp
    } else {
        0
    })
}

/// The points of an attack on a monster. Points are worth scaled by a factor
/// that depends on the mood alone, so that halves and shares of the hero's
/// health come out whole: twice the hero's health in control, one in survival,
/// two in aggression.
pub open spec fn monster_points(mode: IaBehavior, h: int, a: MonsterView, t: MonsterView) -> int {
    match mode {
        IaBehavior::Control => 2 * h * control_worth(a, t),
        IaBehavior::Survival => survival_worth(a, t),
        IaBehavior::Aggressive => aggressive_worth_doubled(a, t),
    }
}

/// The points of an attack on the opposing hero, on the scale of
/// [`monster_points`]. In control a point of damage is worth a half, less the
/// share of the own hero's health `h` that the opposing monsters threaten with
/// their attack `threat`. In survival the hero is the last thing to attack, in
/// aggression the first.
pub open spec fn face_points(mode: IaBehavior, h: int, threat: int, a: MonsterView) -> int {
    match mode {
        IaBehavior::Control => a.attack * (if h > threat {
            h - threat
        } else {
            0
        }),
        IaBehavior::Survival => -1000,
        IaBehavior::Aggressive => 200 * a.attack,
    }
}

/// The points below which a player in control declines to attack at all: ten
/// points of worth lost.
pub open spec fn control_floor(h: int) -> int {
    -10 * (2 * h)
}

/// An attack that the engine's player considers.
pub struct Choice {
    pub attacker: InstanceId,
    pub target: usize,
    pub points: i128,
}

/// The better of the best attack so far and the attack `c`: the new one only
/// where it has more points.
pub open spec fn better(best: Option<Choice>, c: Choice) -> Option<Choice> {
    match best {
        None => Some(c),
        Some(b) => if c.points > b.points {
            Some(c)
        } else {
            Some(b)
        },
    }
}

/// The best attack after the attacker `a` has considered the first `n` of `enemies`.
pub open spec fn scan_targets(
    best: Option<Choice>,
    mode: IaBehavior,
    h: int,
    a: CardView,
    enemies: Seq<CardView>,
    n: nat,
) -> Option<Choice>
    decreases n,
{
    if n == 0 {
        best
    } else {
        better(
            scan_targets(best, mode, h, a, enemies, (n - 1) as nat),
            Choice {
                attacker: a.id,
                target: enemies[n - 1].id,
                points: monster_points(
                    mode,
                    h,
                    a.card_type->Monster_0,
                    enemies[n - 1].card_type->Monster_0,
                ) as i128,
            },
        )
    }
}

/// What the ranking needs to know of the board besides the cards.
pub struct Board {
    pub mode: IaBehavior,
    /// The health of the own hero, as the ranking counts it.
    pub health: usize,
    /// The attack of the opposing monsters, added up.
    pub threat: usize,
    /// Whether the opposing hero may be attacked.
    pub face_open: bool,
    /// The opposing hero.
    pub opponent: PlayerId,
}

/// The best attack after the attacker `a` has considered everything.
pub open spec fn scan_attacker(
    best: Option<Choice>,
    b: Board,
    a: CardView,
    enemies: Seq<CardView>,
) -> Option<Choice> {
    scan_targets(
        if b.face_open {
            better(
                best,
                Choice {
                    attacker: a.id,
                    target: b.opponent,
                    points: face_points(
                        b.mode,
                        b.health as int,
                        b.threat as int,
                        a.card_type->Monster_0,
                    ) as i128,
                },
            )
        } else {
            best
        },
        b.mode,
        b.health as int,
        a,
        enemies,
        enemies.len(),
    )
}

/// The best attack after the first `n` of `attackers` have considered everything.
pub open spec fn scan_attackers(
    b: Board,
    attackers: Seq<CardView>,
    enemies: Seq<CardView>,
    n: nat,
) -> Option<Choice>
    decreases n,
{
    if n == 0 {
        None
    } else {
        scan_attacker(
            scan_attackers(b, attackers, enemies, (n - 1) as nat),
            b,
            attackers[n - 1],
            enemies,
        )
    }
}

/// Whether one of `cards` is a spell.
pub open spec fn any_spell(cards: Seq<CardView>) -> bool {
    exists|i: int| 0 <= i < cards.len() && (#[trigger] cards[i]).card_type is Spell
}

/// The board as `player_id` ranks it in the mood `mode`.
pub open spec fn board_of(g: GameView, player_id: PlayerId, mode: IaBehavior) -> Board {
    let q = opponent_of(g.players, player_id)->0;
    let hp = g.players[player_index(g.players, player_id)->0].hp;
    Board {
        mode,
        health: ranked_health(hp) as usize,
        threat: threat(g, player_id)->Ok_0,
        face_open: !has_defender(g.entities, q),
        opponent: q,
    }
}

/// The attack that `player_id` likes best in the state `g` and the mood `mode`.
///
/// Every monster that may attack considers the opposing hero, while no monster
/// shields it, and then every opposing monster, in the order of the game. The
/// first attack with the most points is the best. With no monster that may
/// attack there is none, and a player in control declines where even the best
/// is below the floor.
pub open spec fn best_attack(g: GameView, player_id: PlayerId, mode: IaBehavior) -> std::result::Result<
    Option<Choice>,
    Fault,
> {
    match opponent_of(g.players, player_id) {
        None => Err(Fault::AiOpponentNotFound(player_id)),
        Some(q) => {
            let attackers = select_cards(g.entities, Selector::Ready(player_id));
            let enemies = select_cards(g.entities, Selector::FieldOf(q));
            if attackers.len() == 0 {
                Ok(None)
            } else if player_index(g.players, player_id) is None {
                Err(Fault::AiPlayerNotFound(player_id))
            } else if any_spell(enemies) {
                Err(Fault::SpellOnField)
            } else {
                let b = board_of(g, player_id, mode);
                let best = scan_attackers(b, attackers, enemies, attackers.len());
                if mode == IaBehavior::Control && best is Some && best->0.points < control_floor(
                    b.health as int,
                ) {
                    Ok(None)
                } else {
                    Ok(best)
                }
            }
        },
    }
}

/// The points of the attack of `a` on the monster `t`.
fn rank_monster(mode: IaBehavior, health: usize, a: &MonsterInstance, t: &MonsterInstance) -> (p:
    i128)
    requires
        1 <= health <= HEALTH_CAP,
    ensures
        p == monster_points(mode, health as int, a@, t@),
{
    let attack = a.attack as i128;
    let hp = a.hp as i128;
    let max_hp = a.max_hp as i128;
    let their_attack = t.attack as i128;
    let their_hp = t.hp as i128;
    let dealt = if attack <= their_hp {
        attack
    } else {
        their_hp
    };
    match mode {
        IaBehavior::Control => {
            let received = if their_attack <= hp {
                their_attack
            } else {
                hp
            };
            let mut worth: i128 = dealt;
            if dealt >= their_hp {
                worth = worth + their_attack;
            }
            worth = worth - received;
            if received >= hp {
                worth = worth - attack;
            } else {
                worth = worth + 5;
            }
            if max_hp > hp {
                worth = worth + 2 * (max_hp - hp);
            }
            let scale = 2 * (health as i128);
            assert(-0x4_0000_0000_0000_0000 <= worth <= 0x8_0000_0000_0000_0000);
            assert(2 <= scale <= 0x200_0000);
            assert(-0x800_0000_0000_0000_0000_0000 <= scale * worth
                <= 0x1000_0000_0000_0000_0000_0000) by (nonlinear_arith)
                requires
                    -0x4_0000_0000_0000_0000 <= worth <= 0x8_0000_0000_0000_0000,
                    2 <= scale <= 0x200_0000,
            ;
            assert(scale * worth == 2 * (health as int) * control_worth(a@, t@)) by (nonlinear_arith)
                requires
                    scale == 2 * (health as int),
                    worth == control_worth(a@, t@),
            ;
            scale * worth
        },
        IaBehavior::Survival => {
            let mut worth: i128 = 10 * dealt;
            if dealt >= their_hp {
                worth = worth + 100 + 5 * their_attack;
            }
            worth
        },
        IaBehavior::Aggressive => {
            let mut worth: i128 = if dealt >= their_hp {
                100
            } else {
                2 * dealt
            };
            if attack > their_hp {
                worth = worth - (attack - their_hp);
            }
            worth
        },
    }
}

/// The points of the attack of `a` on the opposing hero.
fn rank_face(mode: IaBehavior, health: usize, threat: usize, a: &MonsterInstance) -> (p: i128)
    requires
        1 <= health <= HEALTH_CAP,
    ensures
        p == face_points(mode, health as int, threat as int, a@),
{
    let attack = a.attack as i128;
    match mode {
        IaBehavior::Control => {
            let spare: i128 = if health > threat {
                (health - threat) as i128
            } else {
                0
            };
            assert(0 <= attack * spare <= 0x100_0000_0000_0000_0000_0000) by (nonlinear_arith)
                requires
                    0 <= attack <= 0xffff_ffff_ffff_ffff,
                    0 <= spare <= 0x100_0000,
            ;
            attack * spare
        },
        IaBehavior::Survival => -1000,
        IaBehavior::Aggressive => 200 * attack,
    }
}

/// The better of `best` and `c`.
fn pick(best: Option<Choice>, c: Choice) -> (r: Option<Choice>)
    ensures
        r == better(best, c),
{
    match best {
        None => Some(c),
        Some(b) => if c.points > b.points {
            Some(c)
        } else {
            Some(b)
        },
    }
}

/// Whether one of `cards` is a spell.
fn holds_spell(cards: &Vec<&CardInstance>) -> (b: bool)
    ensures
        b == any_spell(cards@.map_values(|c: &CardInstance| c@)),
{
    let ghost views = cards@.map_values(|c: &CardInstance| c@);
    let mut i: usize = 0;
    while i < cards.len()
        invariant
            i <= cards.len(),
            views == cards@.map_values(|c: &CardInstance| c@),
            forall|j: int| 0 <= j < i ==> !((#[trigger] views[j]).card_type is Spell),
        decreases cards.len() - i,
    {
        assert(views[i as int] == cards@[i as int]@);
        if let CardTypeInstance::Spell(_) = &cards[i].card_type {
            return true;
        }
        i += 1;
    }
    false
}

/// Finds the attack that `player_id` likes best in the mood `mode`.
pub fn find_best_attack(game: &Game, player_id: PlayerId, mode: IaBehavior) -> (r: Result<
    Option<Choice>,
>)
    ensures
        match r {
            Ok(c) => best_attack(game@, player_id, mode) == Ok::<Option<Choice>, Fault>(c),
            Err(e) => best_attack(game@, player_id, mode) is Err && e@ == best_attack(
                game@,
                player_id,
                mode,
            )->Err_0.error_view(),
        },
{
    let opponent_id = match get_opponent_id(game, player_id) {
        Err(e) => {
            return Err(e);
        },
        Ok(q) => q,
    };
    let attackers = game.find_cards(Selector::Ready(player_id));
    let enemies = game.find_cards(Selector::FieldOf(opponent_id));
    if attackers.len() == 0 {
        return Ok(None);
    }
    let hp = match game.find_player(player_id) {
        None => {
            return Err(Fault::AiPlayerNotFound(player_id).to_error());
        },
        Some(i) => game.players[i].hp,
    };
    if holds_spell(&enemies) {
        return Err(Fault::SpellOnField.to_error());
    }
    let health = if hp < 1 {
        1
    } else if hp > HEALTH_CAP {
        HEALTH_CAP
    } else {
        hp
    };
    let threat = match enemy_total_attack(game, player_id) {
        Err(e) => {
            return Err(e);
        },
        Ok(t) => t,
    };
    let face_open = !game.defended(opponent_id);
    let ghost b = board_of(game@, player_id, mode);
    let ghost a_views = attackers@.map_values(|c: &CardInstance| c@);
    let ghost e_views = enemies@.map_values(|c: &CardInstance| c@);
    proof {
        lemma_select_len(game@.entities, Selector::Ready(player_id));
    }
    let mut best: Option<Choice> = None;
    let mut i: usize = 0;
    while i < attackers.len()
        invariant
            i <= attackers.len(),
            1 <= health <= HEALTH_CAP,
            b == (Board { mode, health, threat, face_open, opponent: opponent_id }),
            a_views == attackers@.map_values(|c: &CardInstance| c@),
            e_views == enemies@.map_values(|c: &CardInstance| c@),
            !any_spell(e_views),
            forall|k: int| 0 <= k < a_views.len() ==> (#[trigger] a_views[k]).card_type is Monster,
            best == scan_attackers(b, a_views, e_views, i as nat),
        decreases attackers.len() - i,
    {
        assert(a_views[i as int] == attackers@[i as int]@);
        let attacker = attackers[i];
        if let CardTypeInstance::Monster(a) = &attacker.card_type {
            if face_open {
                best = pick(
                    best,
                    Choice {
                        attacker: attacker.id,
                        target: opponent_id,
                        points: rank_face(mode, health, threat, a),
                    },
                );
            }
            let ghost start = best;
            let mut j: usize = 0;
            while j < enemies.len()
                invariant
                    j <= enemies.len(),
                    1 <= health <= HEALTH_CAP,
                    e_views == enemies@.map_values(|c: &CardInstance| c@),
                    !any_spell(e_views),
                    attacker@.card_type == CardTypeView::Monster(a@),
                    best == scan_targets(start, mode, health as int, attacker@, e_views, j as nat),
                decreases enemies.len() - j,
            {
                assert(e_views[j as int] == enemies@[j as int]@);
                assert(!(e_views[j as int].card_type is Spell));
                if let CardTypeInstance::Monster(t) = &enemies[j].card_type {
                    best = pick(
                        best,
                        Choice {
                            attacker: attacker.id,
                            target: enemies[j].id,
                            points: rank_monster(mode, health, a, t),
                        },
                    );
                }
                j += 1;
            }
        }
        i += 1;
    }
    let declined = match (&mode, &best) {
        (IaBehavior::Control, Some(c)) => c.points < -10 * (2 * (health as i128)),
        _ => false,
    };
    if declined {
        Ok(None)
    } else {
        Ok(best)
    }
}

/// What an attack pass of `player_id` comes to, with at most `fuel` attacks:
/// the best attack is declared and the queue drained, again and again, until
/// no attack is left that the player likes.
pub open spec fn attack_pass(g: GameView, player_id: PlayerId, mode: IaBehavior, fuel: nat) -> Outcome
    decreases fuel,
{
    match best_attack(g, player_id, mode) {
        Err(f) => start(g).stop(f),
        Ok(None) => start(g),
        Ok(Some(c)) => if fuel == 0 {
            start(g).stop(Fault::DrainLimit)
        } else {
            let o = then_drained(attack_outcome(g, player_id, c.attacker, c.target));
            and_then(o, attack_pass(o.game, player_id, mode, (fuel - 1) as nat))
        },
    }
}

/// Plays an attack pass of `player_id` in the mood `mode`, and reports what happened.
pub fn ai_attack_sequence(game: &mut Game, player_id: PlayerId, mode: IaBehavior) -> (r: Result<
    Vec<Action>,
>)
    ensures
        carried_out(final(game)@, r, attack_pass(old(game)@, player_id, mode, DRAIN_LIMIT as nat)),
{
    execute_greedy_attack_strategy(game, player_id, mode)
}

fn execute_greedy_attack_strategy(game: &mut Game, player_id: PlayerId, mode: IaBehavior) -> (r:
    Result<Vec<Action>>)
    ensures
        carried_out(final(game)@, r, attack_pass(old(game)@, player_id, mode, DRAIN_LIMIT as nat)),
{
    let ghost g0 = game@;
    let mut all_actions: Vec<Action> = Vec::new();
    assert(actions_view(all_actions@) =~= Seq::<ActionView>::empty());
    let mut done: Result<()> = Ok(());
    let mut running = true;
    let mut fuel: usize = DRAIN_LIMIT;
    assert(attack_pass(g0, player_id, mode, DRAIN_LIMIT as nat) == after_actions(
        actions_view(all_actions@),
        attack_pass(game@, player_id, mode, fuel as nat),
    )) by {
        assert(actions_view(all_actions@) + attack_pass(
            g0,
            player_id,
            mode,
            fuel as nat,
        ).actions =~= attack_pass(g0, player_id, mode, fuel as nat).actions);
    }
    while running && done.is_ok()
        invariant
            match done {
                Ok(_) => attack_pass(g0, player_id, mode, DRAIN_LIMIT as nat) == after_actions(
                    actions_view(all_actions@),
                    attack_pass(game@, player_id, mode, fuel as nat),
                ) && (!running ==> best_attack(game@, player_id, mode) == Ok::<
                    Option<Choice>,
                    Fault,
                >(None)),
                Err(e) => attack_pass(g0, player_id, mode, DRAIN_LIMIT as nat).game == game@
                    && attack_pass(g0, player_id, mode, DRAIN_LIMIT as nat).fault is Some && e@
                    == attack_pass(
                    g0,
                    player_id,
                    mode,
                    DRAIN_LIMIT as nat,
                ).fault->0.error_view(),
            },
        decreases fuel + (if running && done is Ok { 1int } else { 0int }),
    {
        let ghost before = game@;
        let ghost acc = actions_view(all_actions@);
        match find_best_attack(game, player_id, mode) {
            Err(e) => {
                done = Err(e);
            },
            Ok(None) => {
                running = false;
            },
            Ok(Some(c)) => {
                if fuel == 0 {
                    done = Err(Fault::DrainLimit.to_error());
                } else {
                    fuel -= 1;
                    match game.attack(player_id, c.attacker, c.target) {
                        Err(e) => {
                            done = Err(e);
                        },
                        Ok(()) => {
                            match game.compute_commands() {
                                Err(e) => {
                                    done = Err(e);
                                },
                                Ok(mut actions) => {
                                    proof {
                                        lemma_actions_add(all_actions@, actions@);
                                        let o = then_drained(
                                            attack_outcome(
                                                before,
                                                player_id,
                                                c.attacker,
                                                c.target,
                                            ),
                                        );
                                        let rest = attack_pass(
                                            o.game,
                                            player_id,
                                            mode,
                                            fuel as nat,
                                        );
                                        assert(Seq::<ActionView>::empty() + drain(
                                            attack_result(before, c.attacker, c.target),
                                            DRAIN_LIMIT as nat,
                                        ).actions =~= drain(
                                            attack_result(before, c.attacker, c.target),
                                            DRAIN_LIMIT as nat,
                                        ).actions);
                                        assert((acc + o.actions) + rest.actions =~= acc + (o.actions
                                            + rest.actions));
                                    }
                                    all_actions.append(&mut actions);
                                },
                            }
                        },
                    }
                }
            },
        }
    }
    match done {
        Err(e) => Err(e),
        Ok(()) => {
            proof {
                assert(actions_view(all_actions@) + Seq::<ActionView>::empty() =~= actions_view(
                    all_actions@,
                ));
            }
            Ok(all_actions)
        },
    }
}

} // verus!
