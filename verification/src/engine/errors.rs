//! Why the engine refuses an action, with the entity or tile concerned.

use crate::entity_manager::{EntityId, Position};
use vstd::prelude::*;

verus! {

/// The reasons for which an action is refused, each naming what it concerns.
#[derive(Debug)]
pub enum GameError {
    NotYourTurn(EntityId),
    EntityNotFound(EntityId),
    ActorDead(EntityId),
    NotEnoughActionPoints { current: u32, required: u32 },
    OutOfBounds(Position),
    NotWalkableTile(Position),
    TileOccupied(Position),
    TargetNotInRange(EntityId),
    TargetDead(EntityId),
    NoAvailableActor,
}

} // verus!
