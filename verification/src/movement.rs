//! The movement/collision system: every controller-tagged entity receives
//! the same signed delta; a candidate destination is committed only when
//! its tile is on the grid and passable, and a rejected move leaves the
//! position entirely unchanged.

use vstd::prelude::*;
use crate::components::Position;
use crate::map::{TileType, spec_idx};
use crate::world::{World, WorldError, WorldView, inv};

verus! {

/// A tile is passable exactly when it is a floor.
pub open spec fn spec_passable(t: TileType) -> bool {
    t == TileType::Floor
}

/// The candidate destination is on the grid and its tile is passable.
pub open spec fn move_committed(p: Position, dx: int, dy: int, tiles: Seq<TileType>) -> bool {
    crate::in_bounds(p.x + dx, p.y + dy) && tiles[spec_idx(p.x + dx, p.y + dy)] != TileType::Wall
}

/// Where one entity ends up: the candidate cell — clamped to the world
/// bounds, which changes nothing for a committed move — when the move is
/// committed, and exactly the old position when it is rejected.
pub open spec fn moved_position(p: Position, dx: int, dy: int, tiles: Seq<TileType>) -> Position {
    if move_committed(p, dx, dy, tiles) {
        Position { x: (p.x + dx) as i32, y: (p.y + dy) as i32 }
    } else {
        p
    }
}

/// The position table after one input delta: every controller-tagged
/// entity with a position moves independently; everything else stays.
pub open spec fn moved_positions(v: WorldView, dx: int, dy: int) -> Seq<Option<Position>> {
    Seq::new(
        v.positions.len(),
        |i: int|
            match v.positions[i] {
                Some(p) => if v.players[i] {
                    Some(moved_position(p, dx, dy, v.map->Some_0))
                } else {
                    Some(p)
                },
                None => None,
            },
    )
}

/// The store after one input delta: only the position table changes.
pub open spec fn moved_view(v: WorldView, dx: int, dy: int) -> WorldView {
    WorldView { positions: moved_positions(v, dx, dy), ..v }
}

/// The movement system can run: its two component tables are registered
/// and the map resource is present.
pub open spec fn movement_ready(v: WorldView) -> bool {
    v.reg_position && v.reg_player && v.map is Some
}

/// Move every controller-tagged entity by the same signed delta, each with
/// its own independent collision check against the map resource: commit
/// the clamped candidate when its tile is passable, reject — leaving the
/// position untouched — when the candidate is off the grid or a wall.
/// Accessing an unregistered table or a missing map resource is a
/// configuration error and nothing changes.
pub fn try_move_player(delta_x: i32, delta_y: i32, ecs: &mut World) -> (r: Result<(), WorldError>)
    requires
        old(ecs).wf(),
    ensures
        final(ecs).wf(),
        !(old(ecs)@.reg_position && old(ecs)@.reg_player) ==> r == Err::<(), WorldError>(
            WorldError::Unregistered,
        ) && final(ecs)@ == old(ecs)@,
        old(ecs)@.reg_position && old(ecs)@.reg_player && old(ecs)@.map is None ==> r == Err::<
            (),
            WorldError,
        >(WorldError::MissingResource) && final(ecs)@ == old(ecs)@,
        movement_ready(old(ecs)@) ==> (r matches Ok(u) && final(ecs)@ == moved_view(
            old(ecs)@,
            delta_x as int,
            delta_y as int,
        )),
{
    ecs.move_tagged(delta_x, delta_y)
}

/// Moving the tagged entities preserves the store's internal consistency.
pub(crate) proof fn lemma_moved_view_inv(v: WorldView, dx: int, dy: int)
    requires
        inv(v),
        movement_ready(v),
    ensures
        inv(moved_view(v, dx, dy)),
{
    let w = moved_view(v, dx, dy);
    assert forall|i: int| 0 <= i < w.alive.len() && !w.alive[i] implies #[trigger] w.positions[i]
        is None && w.renderables[i] is None && !w.players[i] by {
        assert(v.positions[i] is None);
    }
}

/// Collision invariant: a committed move lands exactly on the candidate
/// cell, whose tile is passable; a rejected move leaves the position
/// exactly as it was.
pub proof fn lemma_collision_invariant(p: Position, dx: int, dy: int, tiles: Seq<TileType>)
    ensures
        move_committed(p, dx, dy, tiles) ==> moved_position(p, dx, dy, tiles) == (Position {
            x: (p.x + dx) as i32,
            y: (p.y + dy) as i32,
        }) && spec_passable(tiles[spec_idx(p.x + dx, p.y + dy)]),
        !move_committed(p, dx, dy, tiles) ==> moved_position(p, dx, dy, tiles) == p,
{
}

/// A move never takes an entity off the grid: if the position was on the
/// grid before, it is on the grid after, whether the move was committed
/// or rejected.
pub proof fn lemma_move_stays_in_bounds(p: Position, dx: int, dy: int, tiles: Seq<TileType>)
    requires
        crate::in_bounds(p.x as int, p.y as int),
    ensures
        crate::in_bounds(
            moved_position(p, dx, dy, tiles).x as int,
            moved_position(p, dx, dy, tiles).y as int,
        ),
{
}

} // verus!
