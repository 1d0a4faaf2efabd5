//! The duel that the demo program plays: its set-up, a simple AI that picks each action,
//! and the test for its end.

use crate::entity_manager::{find_entity, spec_distance, Entity, EntityId, Position, Stats};
use crate::errors::GameError;
use crate::game_state::{Action, GameState};
use crate::lookup::{lemma_first_index_at, lemma_first_index_of};
use crate::entity_manager::entity_ids;
use crate::map::MAP;
use vstd::prelude::*;

verus! {

/// The entity of the duel that the demo program lets act first.
pub open spec fn duelist_one() -> Entity {
    Entity { id: 1, stats: Stats { hp: 10, ap: 100, max_ap: 100 }, position: Position { x: 1, y: 1 }, is_dead: false }
}

/// The other entity of the duel.
pub open spec fn duelist_two() -> Entity {
    Entity { id: 2, stats: Stats { hp: 100, ap: 10, max_ap: 10 }, position: Position { x: 8, y: 1 }, is_dead: false }
}

/// A duel seeded with `seed`: entity 1 (10 hit points, 100 action points, at (1, 1)) against
/// entity 2 (100 hit points, 10 action points, at (8, 1)), entity 1 to act.
pub fn setup_duel(seed: u64) -> (state: GameState)
    ensures
        state.rng@ == (seed, 0u8),
        state.rng.well_formed(),
        state.current_actor == 1,
        state.entities@ == seq![duelist_one(), duelist_two()],
        state.map == MAP,
        state.tick == 0,
{
    let mut state = GameState::new(seed);
    let mut first = Entity::new(10, 100, 1, 1);
    first.set_id(1);
    state.entities.push(first);
    let mut second = Entity::new(100, 10, 8, 1);
    second.set_id(2);
    state.entities.push(second);
    state.current_actor = 1;
    state
}

/// The number of living entities among `ents[k..]`.
pub open spec fn living_from(ents: Seq<Entity>, k: int) -> nat
    decreases ents.len() - k,
{
    if k < 0 || k >= ents.len() {
        0
    } else {
        living_from(ents, k + 1) + if ents[k].is_dead {
            0nat
        } else {
            1nat
        }
    }
}

/// The identifier of the first living entity among `ents[k..]`, if there is one.
pub open spec fn first_living_from(ents: Seq<Entity>, k: int) -> Option<EntityId>
    decreases ents.len() - k,
{
    if k < 0 || k >= ents.len() {
        None
    } else if !ents[k].is_dead {
        Some(ents[k].id)
    } else {
        first_living_from(ents, k + 1)
    }
}

/// The index of the first living entity among `ents[k..]` that is not `actor`, if there is
/// one.
pub open spec fn first_opponent_from(ents: Seq<Entity>, actor: EntityId, k: int) -> Option<int>
    decreases ents.len() - k,
{
    if k < 0 || k >= ents.len() {
        None
    } else if !ents[k].is_dead && ents[k].id != actor {
        Some(k)
    } else {
        first_opponent_from(ents, actor, k + 1)
    }
}

/// The number of living entities is at most `living_from(ents, k)` plus the `k` before.
proof fn lemma_living_bound(ents: Seq<Entity>, k: int)
    requires
        0 <= k <= ents.len(),
    ensures
        living_from(ents, k) <= ents.len() - k,
    decreases ents.len() - k,
{
    if k < ents.len() {
        lemma_living_bound(ents, k + 1);
    }
}

/// The duel is over once at most one entity lives.
pub fn is_finished(state: &GameState) -> (r: bool)
    ensures
        r == (living_from(state.entities@, 0) <= 1),
{
    let ents = &state.entities;
    let mut count: usize = 0;
    let mut k: usize = ents.len();
    while k > 0
        invariant
            k <= ents.len(),
            count == living_from(ents@, k as int),
            count <= ents.len() - k,
        decreases k,
    {
        k = k - 1;
        if !ents[k].is_dead {
            count = count + 1;
        }
    }
    count <= 1
}

/// The first living entity, if any lives.
pub fn winner(state: &GameState) -> (r: Option<EntityId>)
    ensures
        r == first_living_from(state.entities@, 0),
{
    let ents = &state.entities;
    let mut k: usize = 0;
    while k < ents.len()
        invariant
            k <= ents.len(),
            ents@ == state.entities@,
            first_living_from(ents@, 0) == first_living_from(ents@, k as int),
        decreases ents.len() - k,
    {
        if !ents[k].is_dead {
            assert(first_living_from(ents@, k as int) == Some(ents@[k as int].id));
            return Some(ents[k].id);
        }
        k = k + 1;
    }
    None
}

/// One step from `from` toward `to`: along x while the columns differ, then along y.
pub open spec fn spec_step_towards(from: Position, to: Position) -> Position {
    if from.x < to.x {
        Position { x: (from.x + 1) as u32, y: from.y }
    } else if from.x > to.x {
        Position { x: (from.x - 1) as u32, y: from.y }
    } else if from.y < to.y {
        Position { x: from.x, y: (from.y + 1) as u32 }
    } else if from.y > to.y {
        Position { x: from.x, y: (from.y - 1) as u32 }
    } else {
        from
    }
}

/// A step toward a different position covers one tile and brings the mover one tile
/// closer; toward its own position it stays put.
pub proof fn law_step_towards_closes_in(from: Position, to: Position)
    ensures
        from != to ==> spec_distance(from, spec_step_towards(from, to)) == 1
            && spec_distance(spec_step_towards(from, to), to) + 1 == spec_distance(from, to),
        from == to ==> spec_step_towards(from, to) == from,
{
}

/// There is a winner to name exactly when some entity lives.
pub proof fn law_winner_iff_someone_lives(ents: Seq<Entity>, k: int)
    requires
        0 <= k <= ents.len(),
    ensures
        first_living_from(ents, k) is Some <==> living_from(ents, k) >= 1,
    decreases ents.len() - k,
{
    if k < ents.len() {
        law_winner_iff_someone_lives(ents, k + 1);
    }
}

/// Counting the living from `k` on: no one lives there exactly when the count is 0, and at
/// most one does exactly when, of any two entities there, one is dead.
pub proof fn law_living_count(ents: Seq<Entity>, k: int)
    requires
        0 <= k <= ents.len(),
    ensures
        living_from(ents, k) == 0 <==> forall|m: int| k <= m < ents.len() ==> #[trigger] ents[m].is_dead,
        living_from(ents, k) <= 1 <==> forall|m: int, n: int|
            k <= m < n < ents.len() ==> #[trigger] ents[m].is_dead || #[trigger] ents[n].is_dead,
    decreases ents.len() - k,
{
    if k < ents.len() {
        law_living_count(ents, k + 1);
        if !ents[k].is_dead && living_from(ents, k + 1) >= 1 {
            let n = choose|n: int| k + 1 <= n < ents.len() && !#[trigger] ents[n].is_dead;
            assert(!ents[k].is_dead && !ents[n].is_dead);
        }
        if living_from(ents, k + 1) > 1 {
            let (m, n) = choose|m: int, n: int|
                k + 1 <= m < n < ents.len() && !#[trigger] ents[m].is_dead && !#[trigger] ents[n].is_dead;
            assert(!ents[m].is_dead && !ents[n].is_dead);
        }
    }
}

/// The winner named is the identifier of the first living entity: it lives and every entity
/// before it is dead; where none is named, every entity is dead.
pub proof fn law_winner_is_first_living(ents: Seq<Entity>, k: int)
    requires
        0 <= k <= ents.len(),
    ensures
        first_living_from(ents, k) matches Some(id) ==> exists|i: int|
            k <= i < ents.len() && !ents[i].is_dead && #[trigger] ents[i].id == id && forall|m: int|
                k <= m < i ==> #[trigger] ents[m].is_dead,
        first_living_from(ents, k) is None ==> forall|m: int| k <= m < ents.len() ==> #[trigger] ents[m].is_dead,
    decreases ents.len() - k,
{
    if k < ents.len() {
        law_winner_is_first_living(ents, k + 1);
        if !ents[k].is_dead {
            assert(ents[k].id == ents[k].id);
        } else if let Some(id) = first_living_from(ents, k + 1) {
            let i = choose|i: int|
                k + 1 <= i < ents.len() && !ents[i].is_dead && #[trigger] ents[i].id == id && forall|m: int|
                    k + 1 <= m < i ==> #[trigger] ents[m].is_dead;
            assert(ents[i].id == id);
        }
    }
}

/// The position one step from `from` toward `to`; `from` itself where they coincide.
pub fn step_towards(from: &Position, to: &Position) -> (p: Position)
    ensures
        p == spec_step_towards(*from, *to),
{
    let mut x = from.x;
    let mut y = from.y;
    if x < to.x {
        x = x + 1;
    } else if x > to.x {
        x = x - 1;
    } else if y < to.y {
        y = y + 1;
    } else if y > to.y {
        y = y - 1;
    }
    Position { x, y }
}

/// Action points below which the AI waits.
pub const MIN_AP_TO_ACT: u32 = 4;

/// Distance within which the AI attacks.
pub const ATTACK_REACH: u32 = 2;

/// The AI's choice for `actor`: refused with `EntityNotFound(actor)` where the actor or an
/// opponent (the first living entity that is not the actor) is missing; otherwise wait when
/// short of action points, attack the opponent within reach, or step toward it.
pub open spec fn spec_choose_action(ents: Seq<Entity>, actor: EntityId) -> Result<Action, GameError> {
    match find_entity(ents, actor) {
        None => Err(GameError::EntityNotFound(actor)),
        Some(i) => match first_opponent_from(ents, actor, 0) {
            None => Err(GameError::EntityNotFound(actor)),
            Some(j) => {
                let me = ents[i];
                let target = ents[j];
                if me.stats.ap < MIN_AP_TO_ACT {
                    Ok(Action::Wait { actor })
                } else if spec_distance(me.position, target.position) <= ATTACK_REACH {
                    Ok(Action::Attack { actor, target: target.id })
                } else {
                    Ok(Action::Move { actor, position: spec_step_towards(me.position, target.position) })
                }
            },
        },
    }
}

/// The opponent the AI looks at is the first living entity that is not the actor: it lives,
/// is not the actor, and every entity before it is dead or is the actor; where there is
/// none, every entity is dead or is the actor.
pub proof fn law_opponent_is_first_living_other(ents: Seq<Entity>, actor: EntityId, k: int)
    requires
        0 <= k <= ents.len(),
    ensures
        first_opponent_from(ents, actor, k) matches Some(j) ==> k <= j < ents.len() && !ents[j].is_dead
            && ents[j].id != actor && forall|m: int|
            k <= m < j ==> #[trigger] ents[m].is_dead || ents[m].id == actor,
        first_opponent_from(ents, actor, k) is None ==> forall|m: int|
            k <= m < ents.len() ==> #[trigger] ents[m].is_dead || ents[m].id == actor,
    decreases ents.len() - k,
{
    if k < ents.len() {
        law_opponent_is_first_living_other(ents, actor, k + 1);
    }
}

/// Without an actor (an entity with its identifier) or an opponent, the AI answers
/// `EntityNotFound(actor)`; an attack it chooses is always on its opponent, the first living
/// entity that is not the actor, standing within Manhattan distance 2.
pub proof fn law_ai_attacks_only_within_reach(ents: Seq<Entity>, actor: EntityId)
    ensures
        find_entity(ents, actor) is None || first_opponent_from(ents, actor, 0) is None
            ==> spec_choose_action(ents, actor) == Err::<Action, GameError>(
            GameError::EntityNotFound(actor),
        ),
        spec_choose_action(ents, actor) matches Ok(Action::Attack { target, .. }) ==> {
            &&& find_entity(ents, actor) is Some
            &&& first_opponent_from(ents, actor, 0) is Some
            &&& target == ents[first_opponent_from(ents, actor, 0)->0].id
            &&& spec_distance(
                ents[find_entity(ents, actor)->0].position,
                ents[first_opponent_from(ents, actor, 0)->0].position,
            ) <= 2
        },
{
}

/// What the AI chooses for an actor `ents[i]` facing its opponent `ents[j]`: with fewer than
/// 4 action points it waits; otherwise it attacks the opponent exactly when the opponent is
/// within Manhattan distance 2, and else moves one tile, to a tile one step closer to the
/// opponent.
pub proof fn law_ai_choice(ents: Seq<Entity>, actor: EntityId, i: int, j: int)
    requires
        find_entity(ents, actor) == Some(i),
        first_opponent_from(ents, actor, 0) == Some(j),
    ensures
        ents[i].stats.ap < 4 ==> spec_choose_action(ents, actor) == Ok::<Action, GameError>(
            Action::Wait { actor },
        ),
        ents[i].stats.ap >= 4 && spec_distance(ents[i].position, ents[j].position) <= 2
            ==> spec_choose_action(ents, actor) == Ok::<Action, GameError>(
            Action::Attack { actor, target: ents[j].id },
        ),
        ents[i].stats.ap >= 4 && spec_distance(ents[i].position, ents[j].position) > 2
            ==> (spec_choose_action(ents, actor) matches Ok(Action::Move { actor: a, position })
            && a == actor && spec_distance(ents[i].position, position) == 1 && spec_distance(
            position,
            ents[j].position,
        ) + 1 == spec_distance(ents[i].position, ents[j].position)),
{
    crate::entity_manager::law_find_entity_is_first(ents, actor);
    law_opponent_is_first_living_other(ents, actor, 0);
    law_step_towards_closes_in(ents[i].position, ents[j].position);
    crate::entity_manager::law_distance_symmetric(ents[i].position, ents[j].position);
}

/// The distance that choosing for `actor` measures fits in a `u32`.
pub open spec fn choose_action_fits(ents: Seq<Entity>, actor: EntityId) -> bool {
    find_entity(ents, actor) is Some && first_opponent_from(ents, actor, 0) is Some ==> spec_distance(
        ents[find_entity(ents, actor)->0].position,
        ents[first_opponent_from(ents, actor, 0)->0].position,
    ) <= u32::MAX
}

/// The index of the first entity with identifier `actor`, if there is one.
fn find_actor(ents: &Vec<Entity>, actor: EntityId) -> (r: Option<usize>)
    ensures
        r matches Some(i) ==> find_entity(ents@, actor) == Some(i as int),
        r is None ==> find_entity(ents@, actor) is None,
{
    let mut k: usize = 0;
    while k < ents.len()
        invariant
            k <= ents.len(),
            forall|j: int| 0 <= j < k ==> #[trigger] entity_ids(ents@)[j] != actor,
        decreases ents.len() - k,
    {
        if ents[k].id == actor {
            proof {
                lemma_first_index_at(entity_ids(ents@), actor, k as int);
            }
            return Some(k);
        }
        k = k + 1;
    }
    proof {
        lemma_first_index_of(entity_ids(ents@), actor);
    }
    None
}

/// The index of the first living entity that is not `actor`, if there is one.
fn find_opponent(ents: &Vec<Entity>, actor: EntityId) -> (r: Option<usize>)
    ensures
        r matches Some(j) ==> j < ents.len() && first_opponent_from(ents@, actor, 0) == Some(j as int),
        r is None ==> first_opponent_from(ents@, actor, 0) is None,
{
    let mut t: usize = 0;
    while t < ents.len()
        invariant
            t <= ents.len(),
            first_opponent_from(ents@, actor, 0) == first_opponent_from(ents@, actor, t as int),
        decreases ents.len() - t,
    {
        if !ents[t].is_dead && ents[t].id != actor {
            assert(first_opponent_from(ents@, actor, t as int) == Some(t as int));
            return Some(t);
        }
        t = t + 1;
    }
    None
}

/// The action the AI picks for the entity whose turn it is.
pub fn choose_action(state: &GameState) -> (r: Result<Action, GameError>)
    requires
        choose_action_fits(state.entities@, state.current_actor),
    ensures
        r == spec_choose_action(state.entities@, state.current_actor),
{
    let actor = state.current_actor;
    let ents = &state.entities;

    let me_idx = match find_actor(ents, actor) {
        Some(i) => i,
        None => return Err(GameError::EntityNotFound(actor)),
    };
    let me = &ents[me_idx];

    let target_idx = find_opponent(ents, actor);
    let target = match target_idx {
        Some(j) => &ents[j],
        None => return Err(GameError::EntityNotFound(actor)),
    };

    let dist = me.position.calculate_manhattan_distance(&target.position);

    if me.stats.ap < MIN_AP_TO_ACT {
        return Ok(Action::Wait { actor });
    }

    if dist <= ATTACK_REACH {
        return Ok(Action::Attack { actor, target: target.id });
    }

    let next = step_towards(&me.position, &target.position);

    Ok(Action::Move { actor, position: next })
}

} // verus!
