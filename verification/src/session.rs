//! What a session around one game has to decide: which command a message
//! stands for, whose turn it is, and who gets to see what happened.
//!
//! Connections and messages pass outside this crate. What is decided here is
//! decided from plain values.

use crate::error::{Error, Result};
use crate::game::action::{Action, ActionView};
use crate::game::types::{InstanceId, PlayerId};
use crate::game::user_actions::play_monster::selection_view;
use crate::game::{played, played_out, Command, Game};
use vstd::prelude::*;

verus! {

/// A command as a player sends it.
#[derive(Debug)]
pub enum PlayerActionCommand {
    PlayMonster { card_id: usize, position: usize, targets: Option<Vec<InstanceId>> },
    PlaySpell { card_id: usize, targets: Option<Vec<InstanceId>> },
    EndTurn,
    Attack { initiator: usize, target: usize },
    Move { card_id: usize, position: usize },
}

impl PlayerActionCommand {
    /// The command that this message of `player` stands for.
    pub open spec fn command_of(self, player: PlayerId) -> Command {
        match self {
            PlayerActionCommand::PlayMonster { card_id, position, targets } => Command::PlayMonster {
                owner: player,
                card_id,
                position,
                selected: selection_view(targets),
            },
            PlayerActionCommand::PlaySpell { card_id, targets } => Command::PlaySpell {
                owner: player,
                card_id,
                selected: selection_view(targets),
            },
            PlayerActionCommand::EndTurn => Command::EndTurn { player },
            PlayerActionCommand::Attack { initiator, target } => Command::Attack {
                player,
                initiator,
                target,
            },
            PlayerActionCommand::Move { card_id, position } => Command::Move {
                player,
                card_id,
                position,
            },
        }
    }
}

/// What the server tells a player.
#[derive(Debug)]
pub enum ServerMessage {
    Action(Action),
    Error(String),
    Message(String),
}

/// Carries out the command `action` of `player` on `game`: the command itself,
/// the drain of the queue, and the state shown to both players.
pub fn perform(game: Game, player: PlayerId, action: PlayerActionCommand) -> (r: Result<
    (Vec<Action>, Game),
>)
    ensures
        played_out(r, played(game@, action.command_of(player), player)),
{
    match action {
        PlayerActionCommand::PlayMonster { card_id, position, targets } => crate::play_monster(
            game,
            player,
            card_id,
            position,
            targets,
        ),
        PlayerActionCommand::PlaySpell { card_id, targets } => crate::play_spell(
            game,
            player,
            card_id,
            targets,
        ),
        PlayerActionCommand::EndTurn => crate::end_turn(game, player),
        PlayerActionCommand::Attack { initiator, target } => crate::attack(
            game,
            player,
            initiator,
            target,
        ),
        PlayerActionCommand::Move { card_id, position } => crate::move_card(
            game,
            player,
            card_id,
            position,
        ),
    }
}

/// Who gets to see an action.
#[derive(Clone, Copy, Debug, PartialEq, Eq, Structural)]
pub enum Audience {
    /// This player alone.
    Player(PlayerId),
    /// Both players.
    Everyone,
    /// Both players, and the game is over.
    EveryoneAndStop,
    /// Nobody: the action tells the session whose turn it is now.
    Turn(PlayerId),
}

/// Who gets to see the action `a`: what a player draws and the state as that
/// player sees it are for that player alone; a win ends the session; the start
/// of a turn is for the session itself.
pub open spec fn audience_of(a: ActionView) -> Audience {
    match a {
        ActionView::UpdateGameView { player, .. } => Audience::Player(player),
        ActionView::Draw { player, .. } => Audience::Player(player),
        ActionView::EnemyDraw { player } => Audience::Player(player),
        ActionView::Win(_) => Audience::EveryoneAndStop,
        ActionView::StartTurn(player) => Audience::Turn(player),
        _ => Audience::Everyone,
    }
}

/// Who gets to see `action`.
pub fn audience(action: &Action) -> (r: Audience)
    ensures
        r == audience_of(action@),
{
    match action {
        Action::UpdateGameView { player, .. } => Audience::Player(*player),
        Action::Draw { player, .. } => Audience::Player(*player),
        Action::EnemyDraw { player } => Audience::Player(*player),
        Action::Win(_) => Audience::EveryoneAndStop,
        Action::StartTurn(player) => Audience::Turn(*player),
        _ => Audience::Everyone,
    }
}

/// The player whose turn it is after `actions`, where it was the turn of `turn`
/// before: the one that the last start of a turn names before a win, if any.
pub open spec fn turn_after(turn: PlayerId, actions: Seq<ActionView>) -> PlayerId
    decreases actions.len(),
{
    if actions.len() == 0 {
        turn
    } else if stopped(actions.drop_last()) {
        turn_after(turn, actions.drop_last())
    } else {
        match audience_of(actions.last()) {
            Audience::Turn(p) => p,
            _ => turn_after(turn, actions.drop_last()),
        }
    }
}

/// Whether one of `actions` ends the session.
pub open spec fn stopped(actions: Seq<ActionView>) -> bool {
    exists|i: int|
        0 <= i < actions.len() && audience_of(#[trigger] actions[i]) == Audience::EveryoneAndStop
}

/// Follows `actions` to see whose turn it is afterwards and whether the game
/// is over, starting from the turn of `turn`.
pub fn follow_turn(turn: PlayerId, actions: &Vec<Action>) -> (r: (PlayerId, bool))
    ensures
        r.0 == turn_after(turn, crate::game::action::actions_view(actions@)),
        r.1 == stopped(crate::game::action::actions_view(actions@)),
{
    let ghost views = crate::game::action::actions_view(actions@);
    let mut now = turn;
    let mut over = false;
    let mut i: usize = 0;
    while i < actions.len()
        invariant
            i <= actions.len(),
            views == crate::game::action::actions_view(actions@),
            now == turn_after(turn, views.take(i as int)),
            over == stopped(views.take(i as int)),
        decreases actions.len() - i,
    {
        proof {
            assert(views.take(i + 1).drop_last() =~= views.take(i as int));
            assert(views.take(i + 1).last() == actions@[i as int]@);
        }
        let ghost before = views.take(i as int);
        let ghost after = views.take(i + 1);
        if !over {
            match audience(&actions[i]) {
                Audience::Turn(p) => {
                    now = p;
                },
                Audience::EveryoneAndStop => {
                    over = true;
                    assert(audience_of(after[i as int]) == Audience::EveryoneAndStop);
                },
                _ => {},
            }
            proof {
                if !over {
                    assert forall|k: int| 0 <= k < after.len() implies audience_of(
                        #[trigger] after[k],
                    ) != Audience::EveryoneAndStop by {
                        if k < i {
                            assert(before[k] == after[k]);
                        }
                    }
                }
            }
        } else {
            let ghost w = choose|k: int|
                0 <= k < before.len() && audience_of(#[trigger] before[k])
                    == Audience::EveryoneAndStop;
            assert(after[w] == before[w]);
        }
        i += 1;
    }
    assert(views.take(i as int) =~= views);
    (now, over)
}

} // verus!
