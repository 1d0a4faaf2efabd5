//! Entities of the duel, their stats and their positions on the board.

use crate::game_state::Action;
use crate::lookup::{first_index_of, lemma_first_index_of};
use vstd::prelude::*;

verus! {

/// The identifier of an entity.
pub type EntityId = u32;

/// Action points that an attack costs.
pub const ATTACK_COST: u32 = 4;

/// A fighter on the board.
#[derive(Hash)]
pub struct Entity {
    pub id: EntityId,
    pub stats: Stats,
    pub position: Position,
    pub is_dead: bool,
}

/// Hit points and action points of an entity.
#[derive(Hash)]
pub struct Stats {
    pub hp: u32,
    pub ap: u32,
    pub max_ap: u32,
}

/// `value - amount`, or 0 where `amount` exceeds `value`.
pub open spec fn saturating_minus(value: u32, amount: u32) -> u32 {
    if amount > value {
        0
    } else {
        (value - amount) as u32
    }
}

impl Stats {
    /// Stats with `hp` hit points and `ap` action points, `ap` being also the maximum.
    pub fn new(hp: u32, ap: u32) -> (s: Self)
        ensures
            s == (Stats { hp, ap, max_ap: ap }),
    {
        Self { hp, ap, max_ap: ap }
    }

    /// Spends `cost` action points; where there are fewer, they drop to 0.
    pub fn deduct_ap(&mut self, cost: u32)
        ensures
            *final(self) == (Stats { ap: saturating_minus(old(self).ap, cost), ..*old(self) }),
    {
        if cost > self.ap {
            self.ap = 0;
        } else {
            self.ap = self.ap - cost;
        }
    }

    /// Takes `damage` hit points; where there are fewer, they drop to 0.
    pub fn deduct_hp(&mut self, damage: u32)
        ensures
            *final(self) == (Stats { hp: saturating_minus(old(self).hp, damage), ..*old(self) }),
    {
        if damage > self.hp {
            self.hp = 0;
        } else {
            self.hp = self.hp - damage;
        }
    }
}

/// A tile coordinate: column `x`, row `y`.
#[derive(Hash, PartialEq, Eq, Structural, Debug)]
pub struct Position {
    pub x: u32,
    pub y: u32,
}

/// `|a - b|`.
pub open spec fn distance_1d(a: u32, b: u32) -> nat {
    if a >= b {
        (a - b) as nat
    } else {
        (b - a) as nat
    }
}

/// The Manhattan distance between two positions.
pub open spec fn spec_distance(from: Position, to: Position) -> nat {
    distance_1d(from.x, to.x) + distance_1d(from.y, to.y)
}

/// The Manhattan distance is symmetric, and zero exactly between equal positions.
pub proof fn law_distance_symmetric(a: Position, b: Position)
    ensures
        spec_distance(a, b) == spec_distance(b, a),
        spec_distance(a, a) == 0,
        spec_distance(a, b) == 0 <==> a == b,
{
}

/// The distance is the Manhattan distance: the largest of the four signed sums of the
/// coordinate differences, `±(a.x - b.x) ± (a.y - b.y)`, and equal to one of them.
pub proof fn law_distance_is_manhattan(a: Position, b: Position)
    ensures
        spec_distance(a, b) >= (a.x - b.x) + (a.y - b.y),
        spec_distance(a, b) >= (a.x - b.x) - (a.y - b.y),
        spec_distance(a, b) >= (b.x - a.x) + (a.y - b.y),
        spec_distance(a, b) >= (b.x - a.x) - (a.y - b.y),
        spec_distance(a, b) == (a.x - b.x) + (a.y - b.y) || spec_distance(a, b) == (a.x - b.x) - (
        a.y - b.y) || spec_distance(a, b) == (b.x - a.x) + (a.y - b.y) || spec_distance(a, b) == (
        b.x - a.x) - (a.y - b.y),
{
}

/// The first entity with identifier `id`, where `find_entity` names one, has that
/// identifier and no entity before it does; where it names none, no entity has it.
pub proof fn law_find_entity_is_first(ents: Seq<Entity>, id: EntityId)
    ensures
        find_entity(ents, id) matches Some(i) ==> 0 <= i < ents.len() && ents[i].id == id && forall|
            j: int,
        | 0 <= j < i ==> #[trigger] ents[j].id != id,
        find_entity(ents, id) is None ==> forall|j: int| 0 <= j < ents.len() ==> #[trigger] ents[j].id
            != id,
{
    lemma_first_index_of(entity_ids(ents), id);
    if let Some(i) = find_entity(ents, id) {
        assert forall|j: int| 0 <= j < i implies #[trigger] ents[j].id != id by {
            assert(entity_ids(ents)[j] != id);
        }
    } else {
        assert forall|j: int| 0 <= j < ents.len() implies #[trigger] ents[j].id != id by {
            assert(entity_ids(ents)[j] != id);
        }
    }
}

impl Position {
    /// The position at column `x`, row `y`.
    pub fn new(x: u32, y: u32) -> (p: Self)
        ensures
            p == (Position { x, y }),
    {
        Self { x, y }
    }

    /// The Manhattan distance from `self` to `to`; it must fit in a `u32`.
    pub fn calculate_manhattan_distance(&self, to: &Position) -> (d: u32)
        requires
            spec_distance(*self, *to) <= u32::MAX,
        ensures
            d == spec_distance(*self, *to),
    {
        let x = if self.x >= to.x {
            self.x - to.x
        } else {
            to.x - self.x
        };
        let y = if self.y >= to.y {
            self.y - to.y
        } else {
            to.y - self.y
        };
        x + y
    }
}

impl Entity {
    /// A living entity with id 0, `hp` hit points and `ap` action points at (`pos_x`, `pos_y`).
    pub fn new(hp: u32, ap: u32, pos_x: u32, pos_y: u32) -> (e: Self)
        ensures
            e == (Entity {
                id: 0,
                stats: Stats { hp, ap, max_ap: ap },
                position: Position { x: pos_x, y: pos_y },
                is_dead: false,
            }),
    {
        Self {
            id: 0,
            stats: Stats::new(hp, ap),
            position: Position::new(pos_x, pos_y),
            is_dead: false,
        }
    }

    /// What `action` costs this entity in action points: the distance of a move, a fixed
    /// price for an attack, and all that is left for a wait.
    pub open spec fn spec_action_cost(self, action: Action) -> int {
        match action {
            Action::Move { position, .. } => spec_distance(self.position, position) as int,
            Action::Attack { .. } => ATTACK_COST as int,
            Action::Wait { .. } => self.stats.ap as int,
        }
    }

    /// A move costs as many points as the distance it covers; that distance must fit in a
    /// `u32`.
    pub open spec fn cost_fits(self, action: Action) -> bool {
        action matches Action::Move { position, .. } ==> spec_distance(self.position, position)
            <= u32::MAX
    }

    /// The action points that `action` costs this entity.
    pub fn action_cost(&self, action: &Action) -> (c: u32)
        requires
            self.cost_fits(*action),
        ensures
            c == self.spec_action_cost(*action),
    {
        match action {
            Action::Move { position, .. } => self.position.calculate_manhattan_distance(&position),
            Action::Attack { .. } => ATTACK_COST,
            Action::Wait { .. } => self.stats.ap,
        }
    }

    /// Gives the entity the identifier `id`.
    pub fn set_id(&mut self, id: u32)
        ensures
            *final(self) == (Entity { id, ..*old(self) }),
    {
        self.id = id;
    }
}

/// The identifiers of `ents`, in order.
pub open spec fn entity_ids(ents: Seq<Entity>) -> Seq<EntityId> {
    Seq::new(ents.len(), |i: int| ents[i].id)
}

/// The index of the first entity in `ents` with identifier `id`, if there is one.
pub open spec fn find_entity(ents: Seq<Entity>, id: EntityId) -> Option<int> {
    first_index_of(entity_ids(ents), id)
}

/// Replacing an entity by one with the same identifier does not change where any
/// identifier is first found.
pub proof fn lemma_find_entity_update(ents: Seq<Entity>, i: int, e: Entity, id: EntityId)
    requires
        0 <= i < ents.len(),
        e.id == ents[i].id,
    ensures
        find_entity(ents.update(i, e), id) == find_entity(ents, id),
{
    assert(entity_ids(ents.update(i, e)) =~= entity_ids(ents));
}

} // verus!
