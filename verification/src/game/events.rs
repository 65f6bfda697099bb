//! Kinds of events that effects can wait for.

use vstd::prelude::*;

verus! {

/// A kind of event in the course of a game.
#[derive(Clone, Copy, Debug, PartialEq, Eq, Hash, Structural)]
pub enum EventType {
    MinionDies,
    MinionSummoned,
    TurnStarts,
    TurnEnds,
}

} // verus!
