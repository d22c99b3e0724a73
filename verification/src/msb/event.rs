//! Event records: per-game event-type discriminants.

pub mod elden_ring;
pub mod nightreign;

use vstd::prelude::*;

verus! {

/// An event-type discriminant, tagged by game.
#[derive(Debug, PartialEq, Eq, Structural)]
pub enum EventType {
    EldenRing(elden_ring::EventType),
    Nightreign(nightreign::EventType),
}

} // verus!
