//! Melee combat between two entities.

use crate::entity_manager::{saturating_minus, spec_distance, Entity, Stats};
use crate::errors::GameError;
use vstd::prelude::*;

verus! {

/// Action points that an attack costs.
pub const ATTACK_COST: u32 = 4;

/// Hit points that an attack takes.
pub const ATTACK_DAMAGE: u32 = 2;

/// How far an attack reaches: 2, so that a diagonal neighbour is in reach.
pub const RANGE: u32 = 2;

/// `attacker` strikes `target`: with fewer than `ATTACK_COST` action points it is refused
/// for want of points; beyond `RANGE` it is refused as out of range; otherwise the attacker
/// spends `ATTACK_COST` points and the target loses `ATTACK_DAMAGE` hit points (down to 0).
/// A refused attack changes neither entity.
pub fn attack(attacker: &mut Entity, target: &mut Entity) -> (r: Result<(), GameError>)
    requires
        old(attacker).stats.ap >= ATTACK_COST ==> spec_distance(
            old(attacker).position,
            old(target).position,
        ) <= u32::MAX,
    ensures
        old(attacker).stats.ap < ATTACK_COST ==> r == Err::<(), GameError>(
            GameError::NotEnoughActionPoints { current: old(attacker).stats.ap, required: ATTACK_COST },
        ),
        old(attacker).stats.ap >= ATTACK_COST && spec_distance(
            old(attacker).position,
            old(target).position,
        ) > RANGE ==> r == Err::<(), GameError>(GameError::TargetNotInRange),
        r is Err ==> *final(attacker) == *old(attacker) && *final(target) == *old(target),
        old(attacker).stats.ap >= ATTACK_COST && spec_distance(
            old(attacker).position,
            old(target).position,
        ) <= RANGE ==> {
            &&& r is Ok
            &&& *final(attacker) == (Entity {
                stats: Stats { ap: (old(attacker).stats.ap - ATTACK_COST) as u32, ..old(attacker).stats },
                ..*old(attacker)
            })
            &&& *final(target) == (Entity {
                stats: Stats { hp: saturating_minus(old(target).stats.hp, ATTACK_DAMAGE), ..old(target).stats },
                ..*old(target)
            })
        },
{
    if attacker.stats.ap < ATTACK_COST {
        return Err(
            GameError::NotEnoughActionPoints { current: attacker.stats.ap, required: ATTACK_COST },
        );
    }
    if attacker.position.calculate_manhattan_distance(&target.position) > RANGE {
        return Err(GameError::TargetNotInRange);
    }
    attacker.stats.deduct_ap(ATTACK_COST);
    target.stats.deduct_hp(ATTACK_DAMAGE);
    Ok(())
}

} // verus!
