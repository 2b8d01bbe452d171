//! Simulation core of a grid-based, turn-driven exploration game: an
//! entity-component store holding positional and visual state, a tile map
//! with collision semantics, and a per-tick update/render pipeline.

use vstd::prelude::*;

pub mod map;
pub mod components;
pub mod frame;
pub mod movement;
pub mod world;

verus! {

/// Width of the world grid, in cells.
pub const WIDTH: i32 = 80;

/// Height of the world grid, in cells.
pub const HEIGHT: i32 = 50;

/// Number of cells in the world grid.
pub const MAP_LEN: usize = 4000;

/// A coordinate pair is on the grid.
pub open spec fn in_bounds(x: int, y: int) -> bool {
    0 <= x < WIDTH && 0 <= y < HEIGHT
}

} // verus!
