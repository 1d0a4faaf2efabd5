//! Why the engine refuses an action.

use crate::entity_manager::EntityId;
use vstd::prelude::*;

verus! {

/// The reasons for which an action or an attack is refused.
#[derive(Debug)]
pub enum GameError {
    NoAvailableActor,
    NotYourTurn,
    TargetNotAlive,
    EntityNotFound(EntityId),
    ActorDead(EntityId),
    NoEntities,
    TargetNotInRange,
    CannotSpawnEntityWithSameId(EntityId),
    NotEnoughActionPoints { current: u32, required: u32 },
    OutOfBounds,
    NotWalkableTile,
}

} // verus!
