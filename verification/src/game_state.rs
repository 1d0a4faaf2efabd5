//! The game state and the pipeline that turns an action into a change of it: an action is
//! validated, its cost is paid, it becomes events, and the events are resolved.

use crate::entity_manager::{
    entity_ids, find_entity, lemma_find_entity_update, saturating_minus, spec_distance, Entity,
    EntityId, Position, Stats,
};
use crate::lookup::{lemma_first_index_at, lemma_first_index_of};
use crate::errors::GameError;
use crate::hashing::{
    bool_write, lemma_writes_injective, u32_write, u64_write, u8_write, write_bool, write_u32,
    write_u64,
};
use crate::map::{in_bounds, is_walkable, spec_in_bounds, spec_is_walkable, GameMap, MAP};
use crate::rng::DeterministicRng;
use std::collections::hash_map::DefaultHasher;
use std::hash::Hasher;
use vstd::std_specs::hash::DefaultHasherAdditionalSpecFns;
use vstd::prelude::*;

verus! {

/// How far an attack reaches: 2, so that a diagonal neighbour is in reach.
pub const RANGE: u32 = 2;

/// Hit points that an attack takes.
pub const ATTACK_DAMAGE: u32 = 2;

/// What a player or the AI wants the current actor to do.
pub enum Action {
    Move { actor: EntityId, position: Position },
    Attack { actor: EntityId, target: EntityId },
    Wait { actor: EntityId },
}

impl Action {
    /// The entity that performs the action.
    pub open spec fn spec_actor(self) -> EntityId {
        match self {
            Action::Move { actor, .. } => actor,
            Action::Attack { actor, .. } => actor,
            Action::Wait { actor } => actor,
        }
    }

    fn actor(&self) -> (r: EntityId)
        ensures
            r == self.spec_actor(),
    {
        match *self {
            Action::Move { actor, .. } => actor,
            Action::Attack { actor, .. } => actor,
            Action::Wait { actor } => actor,
        }
    }
}

/// A resolved fact that changes the world.
enum Event {
    Moved { entity: EntityId, to: Position },
    Damage { target: EntityId, amount: u32 },
    EndTurn,
}

/// The whole simulation: the generator, whose turn it is, the entities, the board and the
/// count of actions carried out.
pub struct GameState {
    pub rng: DeterministicRng,
    pub current_actor: EntityId,
    pub entities: Vec<Entity>,
    pub map: GameMap,
    /// The number of actions carried out; public so that a driver can show it.
    pub tick: u32,
}

/// Whether `action` is accepted in a state where it is `current_actor`'s turn, and if not,
/// why: checked in this order, the turn, that the actor exists and lives, that it has the
/// action points, and then that a move lands on a walkable tile of the board or that the
/// target of an attack exists and is within `RANGE`.
pub open spec fn spec_validate(
    current_actor: EntityId,
    ents: Seq<Entity>,
    map: GameMap,
    action: Action,
) -> Result<(), GameError> {
    let actor = action.spec_actor();
    if actor != current_actor {
        Err(GameError::NotYourTurn)
    } else {
        match find_entity(ents, actor) {
            None => Err(GameError::EntityNotFound(actor)),
            Some(i) => {
                let e = ents[i];
                let cost = e.spec_action_cost(action);
                if e.is_dead {
                    Err(GameError::ActorDead(actor))
                } else if (e.stats.ap as int) < cost {
                    Err(
                        GameError::NotEnoughActionPoints { current: e.stats.ap, required: cost as u32 },
                    )
                } else {
                    match action {
                        Action::Move { position, .. } => {
                            if !spec_in_bounds(position) {
                                Err(GameError::OutOfBounds)
                            } else if !spec_is_walkable(map, position) {
                                Err(GameError::NotWalkableTile)
                            } else {
                                Ok(())
                            }
                        },
                        Action::Attack { target, .. } => {
                            match find_entity(ents, target) {
                                None => Err(GameError::EntityNotFound(target)),
                                Some(j) => {
                                    if spec_distance(e.position, ents[j].position) > RANGE {
                                        Err(GameError::TargetNotInRange)
                                    } else {
                                        Ok(())
                                    }
                                },
                            }
                        },
                        Action::Wait { .. } => Ok(()),
                    }
                }
            },
        }
    }
}

/// The distances that checking `action` measures fit in a `u32` (else the measure would
/// overflow).
pub open spec fn spec_step_fits(current_actor: EntityId, ents: Seq<Entity>, action: Action) -> bool {
    let actor = action.spec_actor();
    actor == current_actor && find_entity(ents, actor) is Some && !ents[find_entity(
        ents,
        actor,
    )->0].is_dead ==> {
        let e = ents[find_entity(ents, actor)->0];
        &&& e.cost_fits(action)
        &&& (e.stats.ap as int) >= e.spec_action_cost(action) && action is Attack && find_entity(
            ents,
            action->target,
        ) is Some ==> spec_distance(e.position, ents[find_entity(ents, action->target)->0].position)
            <= u32::MAX
    }
}

/// The entities after an accepted `action`: the actor pays its cost, then moves, or its
/// target loses `ATTACK_DAMAGE` hit points (down to 0), or, for a wait, nothing more.
pub open spec fn spec_outcome(ents: Seq<Entity>, action: Action) -> Seq<Entity> {
    match find_entity(ents, action.spec_actor()) {
        Some(i) => {
            let e = ents[i];
            let paid = Entity {
                stats: Stats {
                    ap: saturating_minus(e.stats.ap, e.spec_action_cost(action) as u32),
                    ..e.stats
                },
                ..e
            };
            let after = ents.update(i, paid);
            match action {
                Action::Move { position, .. } => after.update(i, Entity { position, ..paid }),
                Action::Attack { target, .. } => {
                    match find_entity(ents, target) {
                        Some(j) => after.update(
                            j,
                            Entity {
                                stats: Stats {
                                    hp: saturating_minus(after[j].stats.hp, ATTACK_DAMAGE),
                                    ..after[j].stats
                                },
                                ..after[j]
                            },
                        ),
                        None => after,
                    }
                },
                Action::Wait { .. } => after,
            }
        },
        None => ents,
    }
}

/// The event that an accepted action becomes.
spec fn spec_intent(action: Action) -> Event {
    match action {
        Action::Move { actor, position } => Event::Moved { entity: actor, to: position },
        Action::Attack { target, .. } => Event::Damage { target, amount: ATTACK_DAMAGE },
        Action::Wait { .. } => Event::EndTurn,
    }
}

/// Resolving one event: the error, if its entity is missing, and the entities after it.
spec fn spec_apply_event(ents: Seq<Entity>, event: Event) -> (Option<GameError>, Seq<Entity>) {
    match event {
        Event::Moved { entity, to } => match find_entity(ents, entity) {
            None => (Some(GameError::EntityNotFound(entity)), ents),
            Some(i) => (None, ents.update(i, Entity { position: to, ..ents[i] })),
        },
        Event::Damage { target, amount } => match find_entity(ents, target) {
            None => (Some(GameError::EntityNotFound(target)), ents),
            Some(i) => (
                None,
                ents.update(
                    i,
                    Entity {
                        stats: Stats { hp: saturating_minus(ents[i].stats.hp, amount), ..ents[i].stats },
                        ..ents[i]
                    },
                ),
            ),
        },
        Event::EndTurn => (None, ents),
    }
}

/// Resolving events in order, stopping at the first that fails.
spec fn spec_apply_events(ents: Seq<Entity>, events: Seq<Event>) -> (Option<GameError>, Seq<Entity>)
    decreases events.len(),
{
    if events.len() == 0 {
        (None, ents)
    } else {
        let (err, before) = spec_apply_events(ents, events.drop_last());
        if err is Some {
            (err, before)
        } else {
            spec_apply_event(before, events.last())
        }
    }
}

/// What hashing one entity feeds the hasher: its fields in declaration order.
pub open spec fn entity_hash_writes(e: Entity) -> Seq<Seq<u8>> {
    seq![
        u32_write(e.id),
        u32_write(e.stats.hp),
        u32_write(e.stats.ap),
        u32_write(e.stats.max_ap),
        u32_write(e.position.x),
        u32_write(e.position.y),
        bool_write(e.is_dead),
    ]
}

/// What hashing the entities one after the other feeds the hasher.
pub open spec fn entities_hash_writes(ents: Seq<Entity>) -> Seq<Seq<u8>>
    decreases ents.len(),
{
    if ents.len() == 0 {
        seq![]
    } else {
        entities_hash_writes(ents.drop_last()) + entity_hash_writes(ents.last())
    }
}

/// What `GameState::hash` feeds a fresh hasher: the number of entities, each entity, whose
/// turn it is, and the generator's seed and count of rolls.
/// Values are written little-endian and the count of entities as 8-byte
/// `u64`s, so the digest matches that of `derive(Hash)` only on 64-bit little-endian targets.
pub open spec fn state_hash_writes(
    ents: Seq<Entity>,
    current_actor: EntityId,
    rng: (u64, u8),
) -> Seq<Seq<u8>> {
    seq![u64_write(ents.len() as u64)] + entities_hash_writes(ents) + seq![
        u32_write(current_actor),
        u64_write(rng.0),
        u8_write(rng.1),
    ]
}

impl GameState {
    /// A state with a generator seeded with `seed`, no entities, entity 1 to act, the arena
    /// `MAP`, and no action carried out yet.
    pub fn new(seed: u64) -> (s: Self)
        ensures
            s.rng@ == (seed, 0u8),
            s.rng.well_formed(),
            s.current_actor == 1,
            s.entities@ == Seq::<Entity>::empty(),
            s.map == MAP,
            s.tick == 0,
    {
        Self { rng: DeterministicRng::new(seed), current_actor: 1, entities: vec![], map: MAP, tick: 0 }
    }

    /// Carries out `action`. It is refused with the error that `spec_validate` names, and
    /// then nothing changes; otherwise the entities become `spec_outcome` and the tick
    /// counts one more action. The generator, the turn and the board never change here.
    pub fn step(&mut self, action: Action) -> (r: Result<(), GameError>)
        requires
            spec_step_fits(old(self).current_actor, old(self).entities@, action),
            spec_validate(old(self).current_actor, old(self).entities@, old(self).map, action) is Ok
                ==> old(self).tick < u32::MAX,
        ensures
            r == spec_validate(old(self).current_actor, old(self).entities@, old(self).map, action),
            r is Err ==> *final(self) == *old(self),
            r is Ok ==> {
                &&& final(self).entities@ == spec_outcome(old(self).entities@, action)
                &&& final(self).tick == old(self).tick + 1
                &&& final(self).rng == old(self).rng
                &&& final(self).current_actor == old(self).current_actor
                &&& final(self).map == old(self).map
            },
    {
        let ghost ents0 = self.entities@;
        match self.validate(&action) {
            Ok(()) => {},
            Err(e) => return Err(e),
        }
        let ghost i = find_entity(ents0, action.spec_actor())->0;
        match self.consume_ap(&action) {
            Ok(()) => {},
            Err(e) => return Err(e),
        }
        let ghost ents1 = self.entities@;
        proof {
            lemma_find_entity_update(ents0, i, ents1[i], action.spec_actor());
            if let Action::Attack { target, .. } = action {
                lemma_find_entity_update(ents0, i, ents1[i], target);
            }
        }
        let events = match self.apply_intent(action) {
            Ok(events) => events,
            Err(e) => return Err(e),
        };
        proof {
            assert(events@.drop_last() =~= Seq::<Event>::empty());
            assert(spec_apply_events(ents1, events@.drop_last()) == (None::<GameError>, ents1));
            assert(spec_apply_events(ents1, events@) == spec_apply_event(ents1, spec_intent(action)));
            assert(spec_apply_event(ents1, spec_intent(action)).0 is None);
        }
        match self.resolve(events) {
            Ok(()) => {},
            Err(e) => return Err(e),
        }
        proof {
            assert(self.entities@ =~= spec_outcome(ents0, action));
        }
        self.tick = self.tick + 1;
        Ok(())
    }

    /// Checks `action` against the state without changing it: the answer that `step` gives,
    /// before anything is carried out.
    pub fn validate(&self, action: &Action) -> (r: Result<(), GameError>)
        requires
            spec_step_fits(self.current_actor, self.entities@, *action),
        ensures
            r == spec_validate(self.current_actor, self.entities@, self.map, *action),
    {
        let actor = action.actor();
        if actor != self.current_actor {
            return Err(GameError::NotYourTurn);
        }
        let idx = match self.entity(actor) {
            Some(idx) => idx,
            None => return Err(GameError::EntityNotFound(actor)),
        };
        let entity = &self.entities[idx];
        if entity.is_dead {
            return Err(GameError::ActorDead(actor));
        }
        let cost = entity.action_cost(action);
        if entity.stats.ap < cost {
            return Err(GameError::NotEnoughActionPoints { current: entity.stats.ap, required: cost });
        }
        match action {
            Action::Move { position, .. } => {
                if !in_bounds(&self.map, &position) {
                    return Err(GameError::OutOfBounds);
                };
                if !is_walkable(&self.map, &position) {
                    return Err(GameError::NotWalkableTile);
                };
                Ok(())
            },
            Action::Attack { target, .. } => {
                let target_idx = match self.entity(*target) {
                    Some(t) => t,
                    None => return Err(GameError::EntityNotFound(*target)),
                };
                if entity.position.calculate_manhattan_distance(&self.entities[target_idx].position)
                    > RANGE {
                    return Err(GameError::TargetNotInRange);
                }
                Ok(())
            },
            Action::Wait { .. } => Ok(()),
        }
    }

    /// The actor pays what `action` costs it (down to 0); an actor that is missing is an
    /// error, and then nothing changes.
    fn consume_ap(&mut self, action: &Action) -> (r: Result<(), GameError>)
        requires
            find_entity(old(self).entities@, action.spec_actor()) matches Some(i)
                ==> old(self).entities@[i].cost_fits(*action),
        ensures
            find_entity(old(self).entities@, action.spec_actor()) matches Some(i) ==> {
                let e = old(self).entities@[i];
                &&& r is Ok
                &&& final(self).entities@ == old(self).entities@.update(
                    i,
                    Entity {
                        stats: Stats {
                            ap: saturating_minus(e.stats.ap, e.spec_action_cost(*action) as u32),
                            ..e.stats
                        },
                        ..e
                    },
                )
            },
            find_entity(old(self).entities@, action.spec_actor()) is None ==> r
                == Err::<(), GameError>(GameError::EntityNotFound(action.spec_actor()))
                && final(self).entities@ == old(self).entities@,
            final(self).rng == old(self).rng,
            final(self).current_actor == old(self).current_actor,
            final(self).map == old(self).map,
            final(self).tick == old(self).tick,
    {
        let actor = action.actor();
        let idx = match self.entity(actor) {
            Some(idx) => idx,
            None => return Err(GameError::EntityNotFound(actor)),
        };
        let cost = self.entities[idx].action_cost(action);
        self.entities[idx].stats.deduct_ap(cost);
        Ok(())
    }

    /// Turns an accepted action into the event that carries it out.
    fn apply_intent(&mut self, action: Action) -> (r: Result<Vec<Event>, GameError>)
        ensures
            r matches Ok(events) && events@ == seq![spec_intent(action)],
            *final(self) == *old(self),
    {
        match action {
            Action::Move { actor, position } => {
                let events: Vec<Event> = vec![Event::Moved { entity: actor, to: position }];
                Ok(events)
            },
            Action::Attack { target, .. } => {
                let events: Vec<Event> = vec![Event::Damage { target: target, amount: ATTACK_DAMAGE }];
                Ok(events)
            },
            Action::Wait { .. } => Ok(vec![Event::EndTurn]),
        }
    }

    /// Resolves `events` in order; an event whose entity is missing stops the resolution
    /// with an error, the events before it having taken effect.
    fn resolve(&mut self, events: Vec<Event>) -> (r: Result<(), GameError>)
        ensures
            final(self).entities@ == spec_apply_events(old(self).entities@, events@).1,
            r is Ok <==> spec_apply_events(old(self).entities@, events@).0 is None,
            spec_apply_events(old(self).entities@, events@).0 matches Some(e) ==> r
                == Err::<(), GameError>(e),
            final(self).rng == old(self).rng,
            final(self).current_actor == old(self).current_actor,
            final(self).map == old(self).map,
            final(self).tick == old(self).tick,
    {
        let ghost start = self.entities@;
        let mut k: usize = 0;
        while k < events.len()
            invariant
                k <= events.len(),
                spec_apply_events(start, events@.take(k as int)) == (
                    None::<GameError>,
                    self.entities@,
                ),
                start == old(self).entities@,
                self.rng == old(self).rng,
                self.current_actor == old(self).current_actor,
                self.map == old(self).map,
                self.tick == old(self).tick,
            decreases events.len() - k,
        {
            proof {
                assert(events@.take(k + 1).drop_last() =~= events@.take(k as int));
            }
            match &events[k] {
                Event::Moved { entity, to } => {
                    match self.entity(*entity) {
                        Some(idx) => {
                            self.entities[idx].position = Position { x: to.x, y: to.y };
                        },
                        None => {
                            proof {
                                lemma_spec_apply_events_stops(start, events@, k as int);
                            }
                            return Err(GameError::EntityNotFound(*entity));
                        },
                    }
                },
                Event::Damage { target, amount } => {
                    match self.entity(*target) {
                        Some(idx) => {
                            self.entities[idx].stats.deduct_hp(*amount);
                        },
                        None => {
                            proof {
                                lemma_spec_apply_events_stops(start, events@, k as int);
                            }
                            return Err(GameError::EntityNotFound(*target));
                        },
                    }
                },
                Event::EndTurn => (),
            }
            k = k + 1;
        }
        proof {
            assert(events@.take(k as int) =~= events@);
        }
        Ok(())
    }

    /// The index of the first entity with identifier `entity_id`, if there is one.
    fn entity(&self, entity_id: EntityId) -> (r: Option<usize>)
        ensures
            r matches Some(i) ==> find_entity(self.entities@, entity_id) == Some(i as int),
            r is None ==> find_entity(self.entities@, entity_id) is None,
    {
        let mut k: usize = 0;
        while k < self.entities.len()
            invariant
                k <= self.entities.len(),
                forall|j: int| 0 <= j < k ==> #[trigger] entity_ids(self.entities@)[j] != entity_id,
            decreases self.entities.len() - k,
        {
            if self.entities[k].id == entity_id {
                proof {
                    lemma_first_index_at(entity_ids(self.entities@), entity_id, k as int);
                }
                return Some(k);
            }
            k = k + 1;
        }
        proof {
            lemma_first_index_of(entity_ids(self.entities@), entity_id);
        }
        None
    }

    /// A digest of the entities, whose turn it is and the generator's seed and count of
    /// rolls: `DefaultHasher`'s digest of the writes `state_hash_writes` lists.
    pub fn hash(&self) -> (h: u64)
        ensures
            h == DefaultHasher::spec_finish(
                state_hash_writes(self.entities@, self.current_actor, self.rng@),
            ),
    {
        let mut hasher = DefaultHasher::new();
        write_u64(&mut hasher, self.entities.len() as u64);
        let mut k: usize = 0;
        while k < self.entities.len()
            invariant
                k <= self.entities.len(),
                hasher@ == seq![u64_write(self.entities@.len() as u64)] + entities_hash_writes(
                    self.entities@.take(k as int),
                ),
            decreases self.entities.len() - k,
        {
            let e = &self.entities[k];
            write_u32(&mut hasher, e.id);
            write_u32(&mut hasher, e.stats.hp);
            write_u32(&mut hasher, e.stats.ap);
            write_u32(&mut hasher, e.stats.max_ap);
            write_u32(&mut hasher, e.position.x);
            write_u32(&mut hasher, e.position.y);
            write_bool(&mut hasher, e.is_dead);
            proof {
                assert(self.entities@.take(k + 1).drop_last() =~= self.entities@.take(k as int));
                assert(hasher@ =~= seq![u64_write(self.entities@.len() as u64)]
                    + entities_hash_writes(self.entities@.take(k + 1)));
            }
            k = k + 1;
        }
        proof {
            assert(self.entities@.take(k as int) =~= self.entities@);
        }
        write_u32(&mut hasher, self.current_actor);
        self.rng.hash(&mut hasher);
        proof {
            assert(hasher@ =~= state_hash_writes(self.entities@, self.current_actor, self.rng@));
        }
        hasher.finish()
    }
}

/// Determinism: the answer to an action and the entities after it depend on nothing but the
/// entities, whose turn it is, the board and the action.
pub proof fn law_step_is_deterministic(
    ents1: Seq<Entity>,
    ents2: Seq<Entity>,
    actor1: EntityId,
    actor2: EntityId,
    map1: GameMap,
    map2: GameMap,
    action: Action,
)
    requires
        ents1 == ents2,
        actor1 == actor2,
        map1 == map2,
    ensures
        spec_validate(actor1, ents1, map1, action) == spec_validate(actor2, ents2, map2, action),
        spec_outcome(ents1, action) == spec_outcome(ents2, action),
{
}

/// Validation accepts exactly these actions: the actor is the one whose turn it is, an
/// entity with its identifier exists (the first such is the actor) and lives, and
/// - a move costs at most the actor's action points (its Manhattan length) and ends on a
///   tile of the 8 by 8 board that holds 0;
/// - an attack finds the actor with at least 4 action points and a target entity (the first
///   with the target identifier) within Manhattan distance 2;
/// - a wait is always accepted.
pub proof fn law_validate_accepts_exactly(
    current_actor: EntityId,
    ents: Seq<Entity>,
    map: GameMap,
    action: Action,
)
    ensures
        spec_validate(current_actor, ents, map, action) is Ok <==> {
            &&& action.spec_actor() == current_actor
            &&& find_entity(ents, current_actor) is Some
            &&& !ents[find_entity(ents, current_actor)->0].is_dead
            &&& match action {
                Action::Move { position, .. } => {
                    &&& spec_distance(ents[find_entity(ents, current_actor)->0].position, position)
                        <= ents[find_entity(ents, current_actor)->0].stats.ap
                    &&& position.x < 8 && position.y < 8
                    &&& map@[position.y as int]@[position.x as int] == 0
                },
                Action::Attack { target, .. } => {
                    &&& ents[find_entity(ents, current_actor)->0].stats.ap >= 4
                    &&& find_entity(ents, target) is Some
                    &&& spec_distance(
                        ents[find_entity(ents, current_actor)->0].position,
                        ents[find_entity(ents, target)->0].position,
                    ) <= 2
                },
                Action::Wait { .. } => true,
            }
        },
{
}

/// An action never heals: no entity gains hit points or action points, and entities keep
/// their identifiers, maximum action points, liveness and number.
pub proof fn law_step_never_heals(ents: Seq<Entity>, action: Action)
    ensures
        spec_outcome(ents, action).len() == ents.len(),
        forall|k: int|
            0 <= k < ents.len() ==> {
                let after = #[trigger] spec_outcome(ents, action)[k];
                &&& after.id == ents[k].id
                &&& after.stats.hp <= ents[k].stats.hp
                &&& after.stats.ap <= ents[k].stats.ap
                &&& after.stats.max_ap == ents[k].stats.max_ap
                &&& after.is_dead == ents[k].is_dead
            },
{
}

/// An accepted action costs the actor exactly its price in action points, and nothing else
/// of the actor changes but, for a move, its position.
pub proof fn law_step_charges_actor(
    current_actor: EntityId,
    ents: Seq<Entity>,
    map: GameMap,
    action: Action,
)
    requires
        spec_validate(current_actor, ents, map, action) is Ok,
        !(action is Attack && find_entity(ents, action->target) == find_entity(
            ents,
            action.spec_actor(),
        )),
    ensures
        find_entity(ents, action.spec_actor()) matches Some(i) && {
            let before = ents[i];
            let after = spec_outcome(ents, action)[i];
            &&& after.stats.ap == before.stats.ap - before.spec_action_cost(action)
            &&& after.stats.hp == before.stats.hp
            &&& !(action is Move) ==> after.position == before.position
        },
{
}

/// A move that is accepted puts the actor on the tile it asked for, and that tile lies on
/// the board and can be walked on.
pub proof fn law_move_lands_on_walkable_tile(
    current_actor: EntityId,
    ents: Seq<Entity>,
    map: GameMap,
    action: Action,
)
    requires
        spec_validate(current_actor, ents, map, action) is Ok,
        action is Move,
    ensures
        find_entity(ents, action.spec_actor()) matches Some(i) && {
            &&& spec_outcome(ents, action)[i].position == action->position
            &&& spec_in_bounds(action->position)
            &&& spec_is_walkable(map, action->position)
        },
{
}

/// An accepted attack takes `ATTACK_DAMAGE` hit points (down to 0) from the target, which
/// stood within `RANGE` of the attacker.
pub proof fn law_attack_hits_target(
    current_actor: EntityId,
    ents: Seq<Entity>,
    map: GameMap,
    action: Action,
)
    requires
        spec_validate(current_actor, ents, map, action) is Ok,
        action is Attack,
    ensures
        find_entity(ents, action.spec_actor()) matches Some(i) && find_entity(ents, action->target)
            matches Some(j) && {
            &&& spec_distance(ents[i].position, ents[j].position) <= RANGE
            &&& spec_outcome(ents, action)[j].stats.hp == saturating_minus(
                ents[j].stats.hp,
                ATTACK_DAMAGE,
            )
        },
{
}

/// Equal states have equal hashes.
pub proof fn law_equal_states_hash_alike(
    ents1: Seq<Entity>,
    ents2: Seq<Entity>,
    actor1: EntityId,
    actor2: EntityId,
    rng1: (u64, u8),
    rng2: (u64, u8),
)
    requires
        ents1 == ents2,
        actor1 == actor2,
        rng1 == rng2,
    ensures
        DefaultHasher::spec_finish(state_hash_writes(ents1, actor1, rng1))
            == DefaultHasher::spec_finish(state_hash_writes(ents2, actor2, rng2)),
{
}

/// The writes for a run of entities: seven per entity, in order.
#[verifier::spinoff_prover]
proof fn lemma_entities_hash_writes_layout(ents: Seq<Entity>)
    ensures
        entities_hash_writes(ents).len() == 7 * ents.len(),
        forall|k: int, f: int|
            0 <= k < ents.len() && 0 <= f < 7 ==> #[trigger] entities_hash_writes(ents)[7 * k + f]
                == entity_hash_writes(ents[k])[f],
    decreases ents.len(),
{
    if ents.len() > 0 {
        let front = ents.drop_last();
        lemma_entities_hash_writes_layout(front);
        let w = entities_hash_writes(ents);
        let wf = entities_hash_writes(front);
        assert(w == wf + entity_hash_writes(ents.last()));
        assert(wf.len() == 7 * front.len());
        assert forall|k: int, f: int|
            0 <= k < ents.len() && 0 <= f < 7 implies #[trigger] entities_hash_writes(ents)[7 * k
            + f] == entity_hash_writes(ents[k])[f] by {
            if k < front.len() {
                assert(front[k] == ents[k]);
                assert(wf[7 * k + f] == entity_hash_writes(front[k])[f]);
                assert(w[7 * k + f] == wf[7 * k + f]);
            } else {
                assert(ents[k] == ents.last());
                assert(w[7 * k + f] == entity_hash_writes(ents.last())[f]);
            }
        }
    }
}

/// The hash input tells states apart: where two states feed the hasher the same writes,
/// they have the same entities (every field of each), the same actor to move and the same
/// generator seed and count of rolls.
pub proof fn law_hash_writes_identify_state(
    ents1: Seq<Entity>,
    ents2: Seq<Entity>,
    actor1: EntityId,
    actor2: EntityId,
    rng1: (u64, u8),
    rng2: (u64, u8),
)
    requires
        state_hash_writes(ents1, actor1, rng1) == state_hash_writes(ents2, actor2, rng2),
    ensures
        ents1 == ents2,
        actor1 == actor2,
        rng1 == rng2,
{
    let w1 = state_hash_writes(ents1, actor1, rng1);
    let w2 = state_hash_writes(ents2, actor2, rng2);
    lemma_entities_hash_writes_layout(ents1);
    lemma_entities_hash_writes_layout(ents2);
    lemma_writes_injective();
    assert(w1.len() == 7 * ents1.len() + 4);
    assert(w2.len() == 7 * ents2.len() + 4);
    assert(ents1.len() == ents2.len());
    let n = ents1.len() as int;
    assert forall|k: int| 0 <= k < n implies ents1[k] == ents2[k] by {
        assert forall|f: int| 0 <= f < 7 implies entity_hash_writes(ents1[k])[f]
            == entity_hash_writes(ents2[k])[f] by {
            assert(w1[1 + 7 * k + f] == entities_hash_writes(ents1)[7 * k + f]);
            assert(w2[1 + 7 * k + f] == entities_hash_writes(ents2)[7 * k + f]);
        }
        let (a, b) = (ents1[k], ents2[k]);
        assert(u32_write(a.id) == u32_write(b.id)) by { assert(entity_hash_writes(a)[0] == entity_hash_writes(b)[0]); }
        assert(u32_write(a.stats.hp) == u32_write(b.stats.hp)) by { assert(entity_hash_writes(a)[1] == entity_hash_writes(b)[1]); }
        assert(u32_write(a.stats.ap) == u32_write(b.stats.ap)) by { assert(entity_hash_writes(a)[2] == entity_hash_writes(b)[2]); }
        assert(u32_write(a.stats.max_ap) == u32_write(b.stats.max_ap)) by { assert(entity_hash_writes(a)[3] == entity_hash_writes(b)[3]); }
        assert(u32_write(a.position.x) == u32_write(b.position.x)) by { assert(entity_hash_writes(a)[4] == entity_hash_writes(b)[4]); }
        assert(u32_write(a.position.y) == u32_write(b.position.y)) by { assert(entity_hash_writes(a)[5] == entity_hash_writes(b)[5]); }
        assert(bool_write(a.is_dead) == bool_write(b.is_dead)) by { assert(entity_hash_writes(a)[6] == entity_hash_writes(b)[6]); }
    }
    assert(ents1 =~= ents2);
    assert(u32_write(actor1) == u32_write(actor2)) by { assert(w1[7 * n + 1] == w2[7 * n + 1]); }
    assert(u64_write(rng1.0) == u64_write(rng2.0)) by { assert(w1[7 * n + 2] == w2[7 * n + 2]); }
    assert(u8_write(rng1.1) == u8_write(rng2.1)) by { assert(w1[7 * n + 3] == w2[7 * n + 3]); }
}

/// Resolution stops at event `k` when its entity is missing, with the entities as the
/// events before it left them.
proof fn lemma_spec_apply_events_stops(ents: Seq<Entity>, events: Seq<Event>, k: int)
    requires
        0 <= k < events.len(),
        spec_apply_events(ents, events.take(k)).0 is None,
        spec_apply_event(spec_apply_events(ents, events.take(k)).1, events[k]).0 is Some,
    ensures
        spec_apply_events(ents, events) == spec_apply_event(
            spec_apply_events(ents, events.take(k)).1,
            events[k],
        ),
    decreases events.len() - k,
{
    lemma_spec_apply_events_stops_later(ents, events, k, events.len() as int);
    assert(events.take(events.len() as int) =~= events);
}

/// Once resolution has failed, later events do not change its result.
proof fn lemma_spec_apply_events_stops_later(ents: Seq<Entity>, events: Seq<Event>, k: int, n: int)
    requires
        0 <= k < n <= events.len(),
        spec_apply_events(ents, events.take(k)).0 is None,
        spec_apply_event(spec_apply_events(ents, events.take(k)).1, events[k]).0 is Some,
    ensures
        spec_apply_events(ents, events.take(n)) == spec_apply_event(
            spec_apply_events(ents, events.take(k)).1,
            events[k],
        ),
    decreases n - k,
{
    assert(events.take(k + 1).drop_last() =~= events.take(k));
    if n > k + 1 {
        lemma_spec_apply_events_stops_later(ents, events, k, n - 1);
        assert(events.take(n).drop_last() =~= events.take(n - 1));
    }
}

} // verus!
