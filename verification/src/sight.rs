//! What is visible: how the light on a cell and the nearness of a cell
//! turn a line of sight into what an actor sees.

use vstd::prelude::*;
use crate::arith::larger;
use crate::hex::Angle;
use crate::hex::Coordinate;
use crate::hex::Direction;
use crate::tile::tile_on;
use crate::tile::Tile;
use crate::tile::BLOCK_LIMIT;
use crate::tile::DIM_LIMIT;

verus! {

/// The light on the cell `c`: its entry in the light map, or 0 where it
/// has none.
pub open spec fn light_on(light: Map<Coordinate, u32>, c: Coordinate) -> int {
    if light.contains_key(c) {
        light[c] as int
    } else {
        0
    }
}

/// The light that reaches the cell `c` from its neighbour on the side
/// from which the direction `d` leads to it: the light on that neighbour,
/// or 0 where the neighbour lets no light through.
pub open spec fn leak(
    light: Map<Coordinate, u32>,
    tiles: Map<Coordinate, Tile>,
    c: Coordinate,
    d: Direction,
) -> int {
    let n = c.shifted(d.turned(Angle::Back));
    if tile_on(tiles, n).kind.opacity() < BLOCK_LIMIT {
        light_on(light, n)
    } else {
        0
    }
}

/// The most light that reaches the cell `c` from its neighbours on the
/// sides from which the directions `dirs` lead to it; 0 for no direction.
pub open spec fn best_leak(
    light: Map<Coordinate, u32>,
    tiles: Map<Coordinate, Tile>,
    c: Coordinate,
    dirs: Seq<Direction>,
) -> int
    decreases dirs.len(),
{
    if dirs.len() == 0 {
        0
    } else {
        larger(best_leak(light, tiles, c, dirs.drop_last()), leak(light, tiles, c, dirs.last()))
    }
}

/// The light on the cell `c` as an observer on the cell `viewer` sees it:
/// the light on `c` itself where `c` lets light through; else the most
/// light on a neighbour of `c` that lies towards the observer and lets
/// light through.
pub open spec fn light_seen(
    light: Map<Coordinate, u32>,
    tiles: Map<Coordinate, Tile>,
    viewer: Coordinate,
    c: Coordinate,
) -> int {
    if tile_on(tiles, c).kind.opacity() < BLOCK_LIMIT {
        light_on(light, c)
    } else {
        best_leak(light, tiles, c, viewer.headings_to(c))
    }
}

/// Whether an observer on the cell `viewer`, with the cell `head` in front
/// of it and the given infravision, sees the cell `c` of its line of
/// sight: `c` is lit, or within the reach of the infravision, or the cell
/// in front, or an opaque cell that is lit from the observer's side.
pub open spec fn shows(
    light: Map<Coordinate, u32>,
    tiles: Map<Coordinate, Tile>,
    viewer: Coordinate,
    head: Coordinate,
    infravision: int,
    c: Coordinate,
) -> bool {
    &&& c.in_world()
    &&& {
        ||| light_on(light, c) > 0
        ||| viewer.steps_to(c) <= infravision
        ||| c == head
        ||| tile_on(tiles, c).kind.opacity() > DIM_LIMIT && light_seen(light, tiles, viewer, c) > 0
    }
}

/// The cells of the line of sight `los` that the observer sees.
pub open spec fn seen(
    light: Map<Coordinate, u32>,
    tiles: Map<Coordinate, Tile>,
    viewer: Coordinate,
    head: Coordinate,
    infravision: int,
    los: Set<Coordinate>,
) -> Set<Coordinate> {
    Set::new(|c: Coordinate| los.contains(c) && shows(light, tiles, viewer, head, infravision, c))
}

} // verus!
