//! A deterministic, turn-based duel engine.
//!
//! The crate root holds the first, smaller form of the engine: entities are spawned, take
//! turns in order and attack one another. The modules hold the grid-based engine (entities
//! with action points, movement on a board, validated actions), the duel driver of `demo`,
//! and the newer error and generator types of `engine`.

mod chacha;
pub mod combat_system;
pub mod demo;
pub mod engine;
pub mod entity_manager;
pub mod errors;
pub mod game_state;
mod hashing;
mod lookup;
pub mod map;
pub mod rng;

pub use crate::rng::DeterministicRng;
use crate::hashing::{lemma_writes_injective, u32_write, u64_write, u8_write, write_u32, write_u64};
use crate::lookup::{first_index_of, lemma_first_index_at, lemma_first_index_of};
use std::collections::hash_map::DefaultHasher;
use std::hash::Hasher;
use vstd::prelude::*;
use vstd::std_specs::hash::DefaultHasherAdditionalSpecFns;

verus! {

/// Why an action of the first engine is refused.
#[derive(Debug)]
pub enum GameError {
    EntityNotFound,
    NoEntities,
}

/// A spawned fighter.
#[derive(Hash)]
pub struct Entity {
    id: u32,
    stats: Stats,
    position: Position,
}

#[derive(Hash)]
struct Stats {
    hp: u32,
    ap: u32,
    max_ap: u32,
}

#[derive(Hash)]
struct Position {
    x: u32,
    y: u32,
}

/// What can be seen of an entity: its identifier, stats and position.
pub struct EntityView {
    pub id: u32,
    pub hp: u32,
    pub ap: u32,
    pub max_ap: u32,
    pub x: u32,
    pub y: u32,
}

impl View for Entity {
    type V = EntityView;

    closed spec fn view(&self) -> EntityView {
        EntityView {
            id: self.id,
            hp: self.stats.hp,
            ap: self.stats.ap,
            max_ap: self.stats.max_ap,
            x: self.position.x,
            y: self.position.y,
        }
    }
}

/// Hit points of a freshly spawned entity.
pub const SPAWN_HP: u32 = 15;

/// Action points of a freshly spawned entity.
pub const SPAWN_AP: u32 = 10;

/// Hit points that an attack takes.
pub const ATTACK_DAMAGE: u32 = 3;

/// Action points that an attack costs.
pub const ATTACK_COST: u32 = 2;

/// A freshly spawned entity with identifier `id`, at the origin.
pub open spec fn spawned(id: u32) -> EntityView {
    EntityView { id, hp: SPAWN_HP, ap: SPAWN_AP, max_ap: SPAWN_AP, x: 0, y: 0 }
}

impl Entity {
    fn new(id: u32) -> (e: Self)
        ensures
            e@ == spawned(id),
    {
        Self {
            id,
            stats: Stats { hp: SPAWN_HP, ap: SPAWN_AP, max_ap: SPAWN_AP },
            position: Position { x: 0, y: 0 },
        }
    }
}

/// What a player asks of the first engine.
pub enum Action {
    Spawn,
    EndTurn,
    Attack { attacker: u32, target: u32 },
}

/// The first engine's state: the generator, the identifier the next spawn gets, whose turn
/// it is (an index into the entities) and the entities.
pub struct GameState {
    pub rng: DeterministicRng,
    pub next_entity_id: u32,
    pub current_turn_index: usize,
    pub entities: Vec<Entity>,
}

/// The views of `ents`, in order.
pub open spec fn views(ents: Seq<Entity>) -> Seq<EntityView> {
    Seq::new(ents.len(), |i: int| ents[i]@)
}

/// The identifiers of `ents`, in order.
pub open spec fn ids(ents: Seq<EntityView>) -> Seq<u32> {
    Seq::new(ents.len(), |i: int| ents[i].id)
}

/// The index of the first entity with identifier `id`, if there is one.
pub open spec fn find_spawned(ents: Seq<EntityView>, id: u32) -> Option<int> {
    first_index_of(ids(ents), id)
}

/// The turn after `index` among `count` entities, wrapping round to the first.
pub open spec fn next_turn(index: usize, count: nat) -> int {
    (index + 1) % (count as int)
}

/// The entities after a spawn: one more, with identifier `next_id`, at the end.
pub open spec fn spec_spawn(ents: Seq<EntityView>, next_id: u32) -> Seq<EntityView> {
    ents.push(spawned(next_id))
}

/// Entity `i` after being hit.
pub open spec fn hit(ents: Seq<EntityView>, i: int) -> Seq<EntityView> {
    ents.update(i, EntityView { hp: (ents[i].hp - ATTACK_DAMAGE) as u32, ..ents[i] })
}

/// Entity `i` after paying for an attack.
pub open spec fn tired(ents: Seq<EntityView>, i: int) -> Seq<EntityView> {
    ents.update(i, EntityView { ap: (ents[i].ap - ATTACK_COST) as u32, ..ents[i] })
}

/// `action` can be carried out without an overflow: ending a turn among entities needs a
/// turn index below `usize::MAX`, a spawn an identifier below `u32::MAX`, and an attack on a
/// present target needs the target to have `ATTACK_DAMAGE` hit points and a present
/// attacker to have `ATTACK_COST` action points.
pub open spec fn spec_apply_fits(
    ents: Seq<EntityView>,
    next_id: u32,
    index: usize,
    action: Action,
) -> bool {
    match action {
        Action::EndTurn => ents.len() > 0 ==> index < usize::MAX,
        Action::Spawn => next_id < u32::MAX,
        Action::Attack { attacker, target } => find_spawned(ents, target) matches Some(t) ==> {
            &&& ents[t].hp >= ATTACK_DAMAGE
            &&& find_spawned(ents, attacker) matches Some(a) ==> ents[a].ap >= ATTACK_COST
        },
    }
}

/// What `apply` answers and the entities, next identifier and turn index after it:
/// - `EndTurn` passes the turn to the next entity, wrapping round, or is refused with
///   `NoEntities` where there are none;
/// - `Spawn` appends an entity with identifier `next_id` and moves `next_id` on by one;
/// - `Attack` hits the first entity with the target's identifier, then tires the first with
///   the attacker's; a missing target is refused with `EntityNotFound` before anything
///   happens, a missing attacker the same way after the hit.
pub open spec fn spec_apply(
    ents: Seq<EntityView>,
    next_id: u32,
    index: usize,
    action: Action,
) -> (Result<(), GameError>, Seq<EntityView>, u32, usize) {
    match action {
        Action::EndTurn => if ents.len() == 0 {
            (Err(GameError::NoEntities), ents, next_id, index)
        } else {
            (Ok(()), ents, next_id, next_turn(index, ents.len()) as usize)
        },
        Action::Spawn => (Ok(()), spec_spawn(ents, next_id), (next_id + 1) as u32, index),
        Action::Attack { attacker, target } => match find_spawned(ents, target) {
            None => (Err(GameError::EntityNotFound), ents, next_id, index),
            Some(t) => match find_spawned(ents, attacker) {
                None => (Err(GameError::EntityNotFound), hit(ents, t), next_id, index),
                Some(a) => (Ok(()), tired(hit(ents, t), a), next_id, index),
            },
        },
    }
}

/// An attack that finds both entities succeeds: the target (the first entity with the target
/// identifier) loses 3 hit points, the attacker (the first with the attacker identifier)
/// pays 2 action points, nothing else of them changes, every other entity stays as it was,
/// and the next identifier and the turn index are kept.
pub proof fn law_attack_costs_attacker_and_hurts_target(
    ents: Seq<EntityView>,
    next_id: u32,
    index: usize,
    attacker: u32,
    target: u32,
    a: int,
    t: int,
)
    requires
        find_spawned(ents, attacker) == Some(a),
        find_spawned(ents, target) == Some(t),
        spec_apply_fits(ents, next_id, index, Action::Attack { attacker, target }),
    ensures
        ({
            let (r, after, next_after, index_after) = spec_apply(
                ents,
                next_id,
                index,
                Action::Attack { attacker, target },
            );
            &&& r is Ok
            &&& next_after == next_id
            &&& index_after == index
            &&& after.len() == ents.len()
            &&& after[a].id == attacker && after[t].id == target
            &&& after[a].ap == ents[a].ap - 2
            &&& after[t].hp == ents[t].hp - 3
            &&& a != t ==> after[a].hp == ents[a].hp && after[t].ap == ents[t].ap
            &&& a == t ==> after[a].hp == ents[a].hp - 3
            &&& after[a].max_ap == ents[a].max_ap && after[a].x == ents[a].x && after[a].y
                == ents[a].y
            &&& after[t].max_ap == ents[t].max_ap && after[t].x == ents[t].x && after[t].y
                == ents[t].y
            &&& forall|k: int| 0 <= k < ents.len() && k != a && k != t ==> #[trigger] after[k] == ents[k]
        }),
{
    lemma_first_index_of(ids(ents), attacker);
    lemma_first_index_of(ids(ents), target);
    assert(ids(ents)[a] == attacker && ids(ents)[t] == target);
}

/// A spawn always succeeds: it appends one entity with identifier `next_id`, 15 hit points,
/// 10 action points (also its maximum) at (0, 0), keeps every other entity and the turn
/// index, and moves the next identifier on by one.
pub proof fn law_spawn_appends_fresh_entity(ents: Seq<EntityView>, next_id: u32, index: usize)
    requires
        next_id < u32::MAX,
    ensures
        ({
            let (r, after, next_after, index_after) = spec_apply(ents, next_id, index, Action::Spawn);
            &&& r is Ok
            &&& after.len() == ents.len() + 1
            &&& forall|k: int| 0 <= k < ents.len() ==> #[trigger] after[k] == ents[k]
            &&& after[ents.len() as int] == (EntityView {
                id: next_id,
                hp: 15,
                ap: 10,
                max_ap: 10,
                x: 0,
                y: 0,
            })
            &&& next_after == next_id + 1
            &&& index_after == index
        }),
{
}

/// Ending a turn with no entities is refused with `NoEntities` and changes nothing; among
/// entities it succeeds, keeps them and the next identifier, and hands the turn to the next
/// index, or back to 0 after the last.
pub proof fn law_end_turn_outcome(ents: Seq<EntityView>, next_id: u32, index: usize)
    requires
        ents.len() > 0 ==> index < ents.len(),
        ents.len() <= usize::MAX,
    ensures
        ({
            let (r, after, next_after, index_after) = spec_apply(ents, next_id, index, Action::EndTurn);
            &&& ents.len() == 0 ==> r == Err::<(), GameError>(GameError::NoEntities) && index_after
                == index
            &&& ents.len() > 0 ==> r is Ok
            &&& after == ents && next_after == next_id
            &&& ents.len() > 0 && index + 1 < ents.len() ==> index_after == index + 1
            &&& ents.len() > 0 && index + 1 == ents.len() ==> index_after == 0
        }),
{
    if ents.len() > 0 {
        law_end_turn_is_next_in_order(index, ents.len());
    }
}

/// The shape of every state that `new` and `apply` reach: the entities carry identifiers
/// 1, 2, ... in order, the next identifier is one past the last, and the turn index names
/// an entity (or is 0 where there are none).
pub open spec fn reachable(ents: Seq<EntityView>, next_id: u32, index: usize) -> bool {
    &&& forall|i: int| 0 <= i < ents.len() ==> #[trigger] ents[i].id == i + 1
    &&& next_id == ents.len() + 1
    &&& ents.len() == 0 ==> index == 0
    &&& ents.len() > 0 ==> index < ents.len()
}

/// A fresh state has the shape `reachable` describes.
pub proof fn law_new_is_reachable()
    ensures
        reachable(views(Seq::<Entity>::empty()), 1, 0),
{
}

/// Every `apply` keeps the shape `reachable` describes, whether it succeeds or is refused.
pub proof fn law_apply_keeps_reachable(ents: Seq<EntityView>, next_id: u32, index: usize, action: Action)
    requires
        reachable(ents, next_id, index),
        spec_apply_fits(ents, next_id, index, action),
    ensures
        reachable(
            spec_apply(ents, next_id, index, action).1,
            spec_apply(ents, next_id, index, action).2,
            spec_apply(ents, next_id, index, action).3,
        ),
{
    match action {
        Action::EndTurn => {
            if ents.len() > 0 {
                law_end_turn_stays_in_range(index, ents.len());
            }
        },
        Action::Spawn => {
            let after = spec_spawn(ents, next_id);
            assert forall|i: int| 0 <= i < after.len() implies #[trigger] after[i].id == i + 1 by {
                if i < ents.len() {
                    assert(after[i] == ents[i]);
                }
            }
        },
        Action::Attack { attacker, target } => {
            if let Some(t) = find_spawned(ents, target) {
                lemma_first_index_of(ids(ents), target);
                let h = hit(ents, t);
                assert forall|i: int| 0 <= i < h.len() implies #[trigger] h[i].id == i + 1 by {
                    assert(ents[i].id == i + 1);
                }
                if let Some(a) = find_spawned(ents, attacker) {
                    lemma_first_index_of(ids(ents), attacker);
                    let w = tired(h, a);
                    assert forall|i: int| 0 <= i < w.len() implies #[trigger] w[i].id == i + 1 by {
                        assert(h[i].id == i + 1);
                    }
                }
            }
        },
    }
}

/// What `GameState::hash` feeds a fresh hasher: the number of entities, each entity's
/// identifier, stats and position, whose turn it is, the next identifier, and the
/// generator's seed and count of rolls.
/// Values are written little-endian and the count of entities and the turn index as 8-byte
/// `u64`s, so the digest matches that of `derive(Hash)` only on 64-bit little-endian targets.
pub open spec fn state_hash_writes(
    ents: Seq<EntityView>,
    current_turn_index: usize,
    next_entity_id: u32,
    rng: (u64, u8),
) -> Seq<Seq<u8>> {
    seq![u64_write(ents.len() as u64)] + entities_hash_writes(ents) + seq![
        u64_write(current_turn_index as u64),
        u32_write(next_entity_id),
        u64_write(rng.0),
        u8_write(rng.1),
    ]
}

/// What hashing the entities one after the other feeds the hasher.
pub open spec fn entities_hash_writes(ents: Seq<EntityView>) -> Seq<Seq<u8>>
    decreases ents.len(),
{
    if ents.len() == 0 {
        seq![]
    } else {
        let e = ents.last();
        entities_hash_writes(ents.drop_last()) + seq![
            u32_write(e.id),
            u32_write(e.hp),
            u32_write(e.ap),
            u32_write(e.max_ap),
            u32_write(e.x),
            u32_write(e.y),
        ]
    }
}

/// Ending a turn among `count` entities hands the turn to an index among them.
pub proof fn law_end_turn_stays_in_range(index: usize, count: nat)
    requires
        count > 0,
    ensures
        0 <= next_turn(index, count) < count,
{
}

/// Ending a turn hands it to the entity after the current one, or back to the first after
/// the last.
pub proof fn law_end_turn_is_next_in_order(index: usize, count: nat)
    requires
        index < count,
    ensures
        index + 1 < count ==> next_turn(index, count) == index + 1,
        index + 1 == count ==> next_turn(index, count) == 0,
{
    if index + 1 < count {
        assert((index + 1) % (count as int) == index + 1) by (nonlinear_arith)
            requires
                0 <= index + 1 < count,
        ;
    } else {
        assert((index + 1) % (count as int) == 0) by (nonlinear_arith)
            requires
                index + 1 == count,
                count > 0,
        ;
    }
}

/// Among two or more entities, ending a turn always passes it to another entity.
pub proof fn law_end_turn_passes_turn(index: usize, count: nat)
    requires
        count >= 2,
        index < count,
    ensures
        next_turn(index, count) != index,
{
    if index + 1 < count {
        assert((index + 1) % (count as int) == index + 1) by (nonlinear_arith)
            requires
                0 <= index + 1 < count,
        ;
    } else {
        assert((index + 1) % (count as int) == 0) by (nonlinear_arith)
            requires
                index + 1 == count,
                count > 0,
        ;
    }
}

/// Identifiers stay unique: where every identifier is distinct and below `next_id`, a spawn
/// keeps them distinct and below the next identifier, `next_id + 1`.
pub proof fn law_spawn_keeps_ids_unique(ents: Seq<EntityView>, next_id: u32)
    requires
        forall|i: int, j: int| 0 <= i < j < ents.len() ==> ents[i].id != ents[j].id,
        forall|i: int| 0 <= i < ents.len() ==> ents[i].id < next_id,
    ensures
        forall|i: int, j: int|
            0 <= i < j < spec_spawn(ents, next_id).len() ==> spec_spawn(ents, next_id)[i].id
                != spec_spawn(ents, next_id)[j].id,
        forall|i: int|
            0 <= i < spec_spawn(ents, next_id).len() ==> spec_spawn(ents, next_id)[i].id < next_id
                + 1,
{
    let after = spec_spawn(ents, next_id);
    assert forall|i: int, j: int| 0 <= i < j < after.len() implies after[i].id != after[j].id by {
        if j == ents.len() {
            assert(after[i].id == ents[i].id);
        } else {
            assert(after[i].id == ents[i].id && after[j].id == ents[j].id);
        }
    }
}

/// Equal states have equal hashes.
pub proof fn law_equal_states_hash_alike(
    ents1: Seq<EntityView>,
    ents2: Seq<EntityView>,
    index1: usize,
    index2: usize,
    next1: u32,
    next2: u32,
    rng1: (u64, u8),
    rng2: (u64, u8),
)
    requires
        ents1 == ents2,
        index1 == index2,
        next1 == next2,
        rng1 == rng2,
    ensures
        DefaultHasher::spec_finish(state_hash_writes(ents1, index1, next1, rng1))
            == DefaultHasher::spec_finish(state_hash_writes(ents2, index2, next2, rng2)),
{
}

/// The writes for a run of entities: six per entity, in order.
#[verifier::spinoff_prover]
proof fn lemma_entities_hash_writes_layout(ents: Seq<EntityView>)
    ensures
        entities_hash_writes(ents).len() == 6 * ents.len(),
        forall|k: int|
            0 <= k < ents.len() ==> {
                &&& #[trigger] entities_hash_writes(ents)[6 * k] == u32_write(ents[k].id)
                &&& entities_hash_writes(ents)[6 * k + 1] == u32_write(ents[k].hp)
                &&& entities_hash_writes(ents)[6 * k + 2] == u32_write(ents[k].ap)
                &&& entities_hash_writes(ents)[6 * k + 3] == u32_write(ents[k].max_ap)
                &&& entities_hash_writes(ents)[6 * k + 4] == u32_write(ents[k].x)
                &&& entities_hash_writes(ents)[6 * k + 5] == u32_write(ents[k].y)
            },
    decreases ents.len(),
{
    if ents.len() > 0 {
        let front = ents.drop_last();
        lemma_entities_hash_writes_layout(front);
        let w = entities_hash_writes(ents);
        let wf = entities_hash_writes(front);
        assert(w == wf + seq![
            u32_write(ents.last().id),
            u32_write(ents.last().hp),
            u32_write(ents.last().ap),
            u32_write(ents.last().max_ap),
            u32_write(ents.last().x),
            u32_write(ents.last().y),
        ]);
        assert(wf.len() == 6 * front.len());
        assert forall|k: int| 0 <= k < ents.len() implies {
            &&& #[trigger] w[6 * k] == u32_write(ents[k].id)
            &&& w[6 * k + 1] == u32_write(ents[k].hp)
            &&& w[6 * k + 2] == u32_write(ents[k].ap)
            &&& w[6 * k + 3] == u32_write(ents[k].max_ap)
            &&& w[6 * k + 4] == u32_write(ents[k].x)
            &&& w[6 * k + 5] == u32_write(ents[k].y)
        } by {
            if k < front.len() {
                assert(front[k] == ents[k]);
                assert(wf[6 * k] == u32_write(front[k].id));
                assert(w[6 * k] == wf[6 * k]);
                assert(w[6 * k + 1] == wf[6 * k + 1]);
                assert(w[6 * k + 2] == wf[6 * k + 2]);
                assert(w[6 * k + 3] == wf[6 * k + 3]);
                assert(w[6 * k + 4] == wf[6 * k + 4]);
                assert(w[6 * k + 5] == wf[6 * k + 5]);
            } else {
                assert(k == front.len());
                assert(ents[k] == ents.last());
            }
        }
    }
}

/// The hash input tells states apart: where two states feed the hasher the same writes,
/// they have the same entities (every field of each), the same turn index, the same next
/// identifier and the same generator seed and count of rolls.
pub proof fn law_hash_writes_identify_state(
    ents1: Seq<EntityView>,
    ents2: Seq<EntityView>,
    index1: usize,
    index2: usize,
    next1: u32,
    next2: u32,
    rng1: (u64, u8),
    rng2: (u64, u8),
)
    requires
        state_hash_writes(ents1, index1, next1, rng1) == state_hash_writes(ents2, index2, next2, rng2),
    ensures
        ents1 == ents2,
        index1 == index2,
        next1 == next2,
        rng1 == rng2,
{
    let w1 = state_hash_writes(ents1, index1, next1, rng1);
    let w2 = state_hash_writes(ents2, index2, next2, rng2);
    lemma_entities_hash_writes_layout(ents1);
    lemma_entities_hash_writes_layout(ents2);
    lemma_writes_injective();
    assert(w1.len() == 6 * ents1.len() + 5);
    assert(w2.len() == 6 * ents2.len() + 5);
    let n = ents1.len() as int;
    assert forall|k: int| 0 <= k < n implies ents1[k] == ents2[k] by {
        assert(entities_hash_writes(ents1)[6 * k] == entities_hash_writes(ents2)[6 * k]) by {
            assert(w1[1 + 6 * k] == w2[1 + 6 * k]);
        }
        assert(w1[1 + 6 * k + 1] == w2[1 + 6 * k + 1]);
        assert(w1[1 + 6 * k + 2] == w2[1 + 6 * k + 2]);
        assert(w1[1 + 6 * k + 3] == w2[1 + 6 * k + 3]);
        assert(w1[1 + 6 * k + 4] == w2[1 + 6 * k + 4]);
        assert(w1[1 + 6 * k + 5] == w2[1 + 6 * k + 5]);
    }
    assert(ents1 =~= ents2);
    assert(w1[6 * n + 1] == w2[6 * n + 1]);
    assert(w1[6 * n + 2] == w2[6 * n + 2]);
    assert(w1[6 * n + 3] == w2[6 * n + 3]);
    assert(w1[6 * n + 4] == w2[6 * n + 4]);
}

impl GameState {
    /// A state with a generator seeded with `seed`, no entities, the first spawn to get
    /// identifier 1, and the turn at index 0.
    pub fn new(seed: u64) -> (s: Self)
        ensures
            s.rng@ == (seed, 0u8),
            s.rng.well_formed(),
            s.next_entity_id == 1,
            s.current_turn_index == 0,
            s.entities@ == Seq::<Entity>::empty(),
    {
        Self {
            rng: DeterministicRng::new(seed),
            next_entity_id: 1,
            current_turn_index: 0,
            entities: vec![],
        }
    }

    /// Carries out `action`:
    /// - `EndTurn` passes the turn to the next entity, wrapping round; with no entities it
    ///   is refused with `NoEntities`.
    /// - `Spawn` adds an entity with identifier `next_entity_id`, which goes up by one.
    /// - `Attack` takes `ATTACK_DAMAGE` hit points from the first entity with the target's
    ///   identifier, then `ATTACK_COST` action points from the first with the attacker's;
    ///   a missing target is refused with `EntityNotFound` and changes nothing, a missing
    ///   attacker is refused the same way after the target was hit.
    /// The generator never changes here.
    pub fn apply(&mut self, action: Action) -> (r: Result<(), GameError>)
        requires
            spec_apply_fits(
                views(old(self).entities@),
                old(self).next_entity_id,
                old(self).current_turn_index,
                action,
            ),
        ensures
            (r, views(final(self).entities@), final(self).next_entity_id, final(self).current_turn_index)
                == spec_apply(
                views(old(self).entities@),
                old(self).next_entity_id,
                old(self).current_turn_index,
                action,
            ),
            final(self).rng == old(self).rng,
            action is EndTurn ==> final(self).entities@ == old(self).entities@,
            action is EndTurn && old(self).entities.len() == 0 ==> *final(self) == *old(self),
            action matches Action::Attack { target, .. } && find_spawned(
                views(old(self).entities@),
                target,
            ) is None ==> *final(self) == *old(self),
    {
        match action {
            Action::EndTurn => {
                if self.entities.len() == 0 {
                    return Err(GameError::NoEntities);
                }
                self.current_turn_index = (self.current_turn_index + 1) % self.entities.len();
                Ok(())
            },
            Action::Spawn => {
                let entity_id = self.next_entity_id;
                self.next_entity_id = self.next_entity_id + 1;
                self.entities.push(Entity::new(entity_id));
                proof {
                    assert(views(self.entities@) =~= spec_spawn(
                        views(old(self).entities@),
                        entity_id,
                    ));
                }
                Ok(())
            },
            Action::Attack { attacker, target } => {
                let ghost ents = views(old(self).entities@);
                let t = match self.get_entity_by_id(target) {
                    Some(t) => t,
                    None => return Err(GameError::EntityNotFound),
                };
                self.entities[t].stats.hp = self.entities[t].stats.hp - ATTACK_DAMAGE;
                proof {
                    assert(views(self.entities@) =~= hit(ents, t as int));
                    assert(ids(views(self.entities@)) =~= ids(ents));
                }
                let a = match self.get_entity_by_id(attacker) {
                    Some(a) => a,
                    None => return Err(GameError::EntityNotFound),
                };
                self.entities[a].stats.ap = self.entities[a].stats.ap - ATTACK_COST;
                proof {
                    assert(views(self.entities@) =~= tired(hit(ents, t as int), a as int));
                }
                Ok(())
            },
        }
    }

    /// The index of the first entity with identifier `entity_id`, if there is one.
    fn get_entity_by_id(&self, entity_id: u32) -> (r: Option<usize>)
        ensures
            r matches Some(i) ==> find_spawned(views(self.entities@), entity_id) == Some(i as int),
            r is None ==> find_spawned(views(self.entities@), entity_id) is None,
    {
        let ghost ents = views(self.entities@);
        let mut k: usize = 0;
        while k < self.entities.len()
            invariant
                k <= self.entities.len(),
                ents == views(self.entities@),
                forall|j: int| 0 <= j < k ==> #[trigger] ids(ents)[j] != entity_id,
            decreases self.entities.len() - k,
        {
            if self.entities[k].id == entity_id {
                proof {
                    lemma_first_index_at(ids(ents), entity_id, k as int);
                }
                return Some(k);
            }
            k = k + 1;
        }
        proof {
            lemma_first_index_of(ids(ents), entity_id);
        }
        None
    }

    /// A digest of the entities, whose turn it is, the next identifier and the generator's
    /// seed and count of rolls: `DefaultHasher`'s digest of the writes `state_hash_writes`
    /// lists.
    pub fn hash(&self) -> (h: u64)
        ensures
            h == DefaultHasher::spec_finish(
                state_hash_writes(
                    views(self.entities@),
                    self.current_turn_index,
                    self.next_entity_id,
                    self.rng@,
                ),
            ),
    {
        let ghost ents = views(self.entities@);
        let mut hasher = DefaultHasher::new();
        write_u64(&mut hasher, self.entities.len() as u64);
        let mut k: usize = 0;
        while k < self.entities.len()
            invariant
                k <= self.entities.len(),
                ents == views(self.entities@),
                hasher@ == seq![u64_write(ents.len() as u64)] + entities_hash_writes(
                    ents.take(k as int),
                ),
            decreases self.entities.len() - k,
        {
            let e = &self.entities[k];
            write_u32(&mut hasher, e.id);
            write_u32(&mut hasher, e.stats.hp);
            write_u32(&mut hasher, e.stats.ap);
            write_u32(&mut hasher, e.stats.max_ap);
            write_u32(&mut hasher, e.position.x);
            write_u32(&mut hasher, e.position.y);
            proof {
                assert(ents.take(k + 1).drop_last() =~= ents.take(k as int));
                assert(hasher@ =~= seq![u64_write(ents.len() as u64)] + entities_hash_writes(
                    ents.take(k + 1),
                ));
            }
            k = k + 1;
        }
        proof {
            assert(ents.take(k as int) =~= ents);
        }
        write_u64(&mut hasher, self.current_turn_index as u64);
        write_u32(&mut hasher, self.next_entity_id);
        self.rng.hash(&mut hasher);
        proof {
            assert(hasher@ =~= state_hash_writes(
                ents,
                self.current_turn_index,
                self.next_entity_id,
                self.rng@,
            ));
        }
        hasher.finish()
    }
}

} // verus!
