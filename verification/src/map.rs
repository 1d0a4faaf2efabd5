//! The duel grid: an 8 by 8 board of tiles, where a tile holding 0 can be walked on.

use crate::entity_manager::Position;
use vstd::prelude::*;

verus! {

/// The board; `map[y][x]` is the tile at column `x` and row `y`.
pub type GameMap = [[u8; 8]; 8];

/// The arena: a walkable 6 by 6 floor surrounded by a wall.
pub const MAP: [[u8; 8]; 8] = [
    [1, 1, 1, 1, 1, 1, 1, 1],
    [1, 0, 0, 0, 0, 0, 0, 1],
    [1, 0, 0, 0, 0, 0, 0, 1],
    [1, 0, 0, 0, 0, 0, 0, 1],
    [1, 0, 0, 0, 0, 0, 0, 1],
    [1, 0, 0, 0, 0, 0, 0, 1],
    [1, 0, 0, 0, 0, 0, 0, 1],
    [1, 1, 1, 1, 1, 1, 1, 1],
];

/// `position` lies on the board.
pub open spec fn spec_in_bounds(position: Position) -> bool {
    position.x < 8 && position.y < 8
}

/// The tile under `position` (which must lie on the board) can be walked on.
pub open spec fn spec_is_walkable(map: [[u8; 8]; 8], position: Position) -> bool {
    map@[position.y as int]@[position.x as int] == 0
}

/// Whether `position` lies on `map`.
pub fn in_bounds(map: &[[u8; 8]; 8], position: &Position) -> (r: bool)
    ensures
        r == spec_in_bounds(*position),
{
    position.x < map[0].len() as u32 && position.y < map.len() as u32
}

/// Whether the tile under `position` can be walked on; the position must lie on the board.
pub fn is_walkable(map: &[[u8; 8]; 8], position: &Position) -> (r: bool)
    requires
        spec_in_bounds(*position),
    ensures
        r == spec_is_walkable(*map, *position),
{
    map[position.y as usize][position.x as usize] == 0
}

} // verus!
