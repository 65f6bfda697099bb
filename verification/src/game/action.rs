//! Actions: the record of what happened, for those who watch the game.

use crate::game::card::{CardInstance, CardView};
use crate::game::types::{InstanceId, Location, PlayerId};
use crate::game::view::{PublicGameState, PublicGameStateView};
use vstd::prelude::*;

verus! {

/// Something that happened in the game. The engine writes actions and never reads them back.
#[allow(inconsistent_fields)]
#[derive(Debug)]
pub enum Action {
    Boost { target: InstanceId, attack: usize, hp: usize },
    IncreaseMaxMana { player: PlayerId, amount: usize },
    RefreshMana { player: PlayerId, amount: usize },
    BurnCard { player: PlayerId, card: InstanceId },
    Draw { player: PlayerId, card: CardInstance },
    EnemyDraw { player: PlayerId },
    Heal { target: InstanceId, amount: usize },
    Destroy { target: InstanceId },
    ReceiveDamage { target: InstanceId, amount: usize },
    Summon { source: Location, destination: usize, target: CardInstance, owner: PlayerId },
    Attack { initiator: InstanceId, target: InstanceId },
    TriggerOnDeath(InstanceId),
    TriggerOnPlay(InstanceId),
    TriggerOnAttack(InstanceId),
    Win(PlayerId),
    UpdateGameView { player: PlayerId, game: PublicGameState },
    StartTurn(PlayerId),
}

/// The mathematical value of an [`Action`].
#[allow(inconsistent_fields)]
pub ghost enum ActionView {
    Boost { target: InstanceId, attack: usize, hp: usize },
    IncreaseMaxMana { player: PlayerId, amount: usize },
    RefreshMana { player: PlayerId, amount: usize },
    BurnCard { player: PlayerId, card: InstanceId },
    Draw { player: PlayerId, card: CardView },
    EnemyDraw { player: PlayerId },
    Heal { target: InstanceId, amount: usize },
    Destroy { target: InstanceId },
    ReceiveDamage { target: InstanceId, amount: usize },
    Summon { source: Location, destination: usize, target: CardView, owner: PlayerId },
    Attack { initiator: InstanceId, target: InstanceId },
    TriggerOnDeath(InstanceId),
    TriggerOnPlay(InstanceId),
    TriggerOnAttack(InstanceId),
    Win(PlayerId),
    UpdateGameView { player: PlayerId, game: PublicGameStateView },
    StartTurn(PlayerId),
}

impl View for Action {
    type V = ActionView;

    open spec fn view(&self) -> ActionView {
        match self {
            Action::Boost { target, attack, hp } => ActionView::Boost {
                target: *target,
                attack: *attack,
                hp: *hp,
            },
            Action::IncreaseMaxMana { player, amount } => ActionView::IncreaseMaxMana {
                player: *player,
                amount: *amount,
            },
            Action::RefreshMana { player, amount } => ActionView::RefreshMana {
                player: *player,
                amount: *amount,
            },
            Action::BurnCard { player, card } => ActionView::BurnCard {
                player: *player,
                card: *card,
            },
            Action::Draw { player, card } => ActionView::Draw { player: *player, card: card@ },
            Action::EnemyDraw { player } => ActionView::EnemyDraw { player: *player },
            Action::Heal { target, amount } => ActionView::Heal {
                target: *target,
                amount: *amount,
            },
            Action::Destroy { target } => ActionView::Destroy { target: *target },
            Action::ReceiveDamage { target, amount } => ActionView::ReceiveDamage {
                target: *target,
                amount: *amount,
            },
            Action::Summon { source, destination, target, owner } => ActionView::Summon {
                source: *source,
                destination: *destination,
                target: target@,
                owner: *owner,
            },
            Action::Attack { initiator, target } => ActionView::Attack {
                initiator: *initiator,
                target: *target,
            },
            Action::TriggerOnDeath(id) => ActionView::TriggerOnDeath(*id),
            Action::TriggerOnPlay(id) => ActionView::TriggerOnPlay(*id),
            Action::TriggerOnAttack(id) => ActionView::TriggerOnAttack(*id),
            Action::Win(player) => ActionView::Win(*player),
            Action::UpdateGameView { player, game } => ActionView::UpdateGameView {
                player: *player,
                game: game@,
            },
            Action::StartTurn(player) => ActionView::StartTurn(*player),
        }
    }
}

/// The values of a list of actions, in order.
pub open spec fn actions_view(actions: Seq<Action>) -> Seq<ActionView> {
    actions.map_values(|a: Action| a@)
}

/// Adding an action at the end of a list adds its value at the end of the list's value.
pub proof fn lemma_actions_push(actions: Seq<Action>, a: Action)
    ensures
        actions_view(actions.push(a)) == actions_view(actions).push(a@),
{
    assert(actions_view(actions.push(a)) =~= actions_view(actions).push(a@));
}

/// The value of two lists joined is the two values joined.
pub proof fn lemma_actions_add(a: Seq<Action>, b: Seq<Action>)
    ensures
        actions_view(a + b) == actions_view(a) + actions_view(b),
{
    assert(actions_view(a + b) =~= actions_view(a) + actions_view(b));
}

} // verus!
