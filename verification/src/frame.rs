//! The frame driver: one discrete tick — apply at most one pending input
//! event, run the per-tick systems, flush the deferred mutation queue, then
//! query the renderable entities and emit one draw command per map cell and
//! per matched entity. The caller owns the actual surface: it clears it,
//! then performs the commands in order.

use vstd::prelude::*;
use vstd::arithmetic::div_mod::lemma_fundamental_div_mod_converse;
use crate::components::{Color, Position, Renderable};
use crate::map::{TileMap, TileType};
use crate::movement::{moved_view, movement_ready, try_move_player};
use crate::world::{
    World, WorldError, WorldView, Entity, apply_all, join_spec, maintain_view,
};

verus! {

/// One discrete input event per tick, already decoded from the backend's
/// key codes: a cardinal direction, or anything else.
#[derive(Copy, Clone, PartialEq, Eq, Structural, Debug)]
pub enum InputEvent {
    Left,
    Right,
    Up,
    Down,
    Other,
}

/// The fixed input table: each cardinal key maps to a unit delta; any
/// other event moves nothing.
pub open spec fn spec_delta(k: InputEvent) -> (int, int) {
    match k {
        InputEvent::Left => (-1, 0),
        InputEvent::Right => (1, 0),
        InputEvent::Up => (0, -1),
        InputEvent::Down => (0, 1),
        InputEvent::Other => (0, 0),
    }
}

/// The input event asks for a movement.
pub open spec fn input_applies(key: Option<InputEvent>) -> bool {
    key matches Some(k) && k != InputEvent::Other
}

/// The store after the input phase: absent or unrecognized input is a
/// no-op, never an error; a cardinal key moves every tagged entity.
pub open spec fn input_view(v: WorldView, key: Option<InputEvent>) -> WorldView {
    if input_applies(key) {
        moved_view(v, spec_delta(key->Some_0).0, spec_delta(key->Some_0).1)
    } else {
        v
    }
}

/// Apply at most one pending input event: map it through the fixed key
/// table and move every controller-tagged entity by the resulting delta.
/// No event, or an unrecognized one, is a no-op and touches nothing.
pub fn player_input(ecs: &mut World, key: Option<InputEvent>) -> (r: Result<(), WorldError>)
    requires
        old(ecs).wf(),
    ensures
        final(ecs).wf(),
        !input_applies(key) ==> (r matches Ok(u) && final(ecs)@ == old(ecs)@),
        input_applies(key) && !(old(ecs)@.reg_position && old(ecs)@.reg_player) ==> r == Err::<
            (),
            WorldError,
        >(WorldError::Unregistered) && final(ecs)@ == old(ecs)@,
        input_applies(key) && old(ecs)@.reg_position && old(ecs)@.reg_player && old(ecs)@.map
            is None ==> r == Err::<(), WorldError>(WorldError::MissingResource) && final(ecs)@
            == old(ecs)@,
        input_applies(key) && movement_ready(old(ecs)@) ==> r matches Ok(u),
        r matches Ok(u) ==> final(ecs)@ == input_view(old(ecs)@, key),
{
    match key {
        None => Ok(()),
        Some(k) => match k {
            InputEvent::Left => try_move_player(-1, 0, ecs),
            InputEvent::Right => try_move_player(1, 0, ecs),
            InputEvent::Up => try_move_player(0, -1, ecs),
            InputEvent::Down => try_move_player(0, 1, ecs),
            InputEvent::Other => Ok(()),
        },
    }
}

/// Run every registered per-tick system in its fixed declared order — in
/// this core there are none beyond movement, which runs during the input
/// phase — then flush the deferred mutation queue.
pub fn run_systems(ecs: &mut World)
    requires
        old(ecs).wf(),
    ensures
        final(ecs).wf(),
        final(ecs)@ == maintain_view(old(ecs)@),
{
    ecs.maintain();
}

/// The CP437 glyph code of a character.
pub uninterp spec fn cp437_of(c: char) -> u16;

/// Relies on rltk::to_cp437: the CP437 glyph code equivalent to a unicode
/// character, a function of the character alone.
#[verifier::external_body]
fn to_cp437_glyph(c: char) -> (r: u16)
    ensures
        r == cp437_of(c),
{
    rltk::to_cp437(c)
}

/// One outbound draw call: set the cell `(x, y)` of the render surface to
/// a glyph with a foreground and a background color.
#[derive(Copy, Clone, PartialEq, Eq, Structural, Debug)]
pub struct DrawCmd {
    pub x: i32,
    pub y: i32,
    pub fg: Color,
    pub bg: Color,
    pub glyph: u16,
}

/// Foreground color a floor cell is drawn with: mid grey.
pub open spec fn floor_fg() -> Color {
    Color { r: 128, g: 128, b: 128 }
}

/// Foreground color a wall cell is drawn with: green.
pub open spec fn wall_fg() -> Color {
    Color { r: 0, g: 255, b: 0 }
}

/// Background color of every map cell: black.
pub open spec fn cell_bg() -> Color {
    Color { r: 0, g: 0, b: 0 }
}

/// The draw command for one map cell: a dot on floors, a hash on walls.
pub open spec fn cell_cmd(t: TileType, x: int, y: int) -> DrawCmd {
    match t {
        TileType::Floor => DrawCmd {
            x: x as i32,
            y: y as i32,
            fg: floor_fg(),
            bg: cell_bg(),
            glyph: cp437_of('.'),
        },
        TileType::Wall => DrawCmd {
            x: x as i32,
            y: y as i32,
            fg: wall_fg(),
            bg: cell_bg(),
            glyph: cp437_of('#'),
        },
    }
}

/// The draw commands for the whole map, one per cell in index order.
pub open spec fn map_cmds(tiles: Seq<TileType>) -> Seq<DrawCmd> {
    Seq::new(tiles.len(), |i: int| cell_cmd(tiles[i], i % 80, i / 80))
}

/// The draw command for one renderable entity at its position.
pub open spec fn entity_cmd(p: Position, r: Renderable) -> DrawCmd {
    DrawCmd { x: p.x, y: p.y, fg: r.fg, bg: r.bg, glyph: r.glyph }
}

/// The draw commands for the joined entities, in join order.
pub open spec fn entity_cmds(j: Seq<(Entity, Position, Renderable)>) -> Seq<DrawCmd> {
    j.map_values(|t: (Entity, Position, Renderable)| entity_cmd(t.1, t.2))
}

/// Emit one draw command per map cell, walking the tile sequence in index
/// order exactly as the cells are laid out, row by row.
pub fn draw_map(map: &TileMap) -> (cmds: Vec<DrawCmd>)
    ensures
        cmds@ == map_cmds(map@),
{
    proof {
        use_type_invariant(map);
    }
    let floor_glyph = to_cp437_glyph('.');
    let wall_glyph = to_cp437_glyph('#');
    let mut cmds: Vec<DrawCmd> = Vec::new();
    let mut x: i32 = 0;
    let mut y: i32 = 0;
    let mut i: usize = 0;
    while i < 4000
        invariant
            map@.len() == 4000,
            i <= 4000,
            0 <= x < 80,
            0 <= y,
            i == y * 80 + x,
            floor_glyph == cp437_of('.'),
            wall_glyph == cp437_of('#'),
            cmds@.len() == i,
            forall|k: int| 0 <= k < i ==> cmds@[k] == map_cmds(map@)[k],
        decreases 4000 - i,
    {
        proof {
            lemma_fundamental_div_mod_converse(i as int, 80, y as int, x as int);
        }
        let tile = match map.tile_at(x, y) {
            Ok(t) => t,
            Err(_) => TileType::Wall,
        };
        let cmd = match tile {
            TileType::Floor => DrawCmd {
                x,
                y,
                fg: Color { r: 128, g: 128, b: 128 },
                bg: Color { r: 0, g: 0, b: 0 },
                glyph: floor_glyph,
            },
            TileType::Wall => DrawCmd {
                x,
                y,
                fg: Color { r: 0, g: 255, b: 0 },
                bg: Color { r: 0, g: 0, b: 0 },
                glyph: wall_glyph,
            },
        };
        cmds.push(cmd);
        // Move the coordinates: row by row across the grid.
        x = x + 1;
        if x > 79 {
            x = 0;
            y = y + 1;
        }
        i = i + 1;
    }
    proof {
        assert(cmds@ =~= map_cmds(map@));
    }
    cmds
}

/// The tick is fully configured: all three component tables registered
/// and the map resource present.
pub open spec fn tick_ready(v: WorldView) -> bool {
    v.reg_position && v.reg_renderable && v.reg_player && v.map is Some
}

/// The store after one whole tick: the input phase, then maintain.
pub open spec fn tick_view(v: WorldView, key: Option<InputEvent>) -> WorldView {
    maintain_view(input_view(v, key))
}

/// The frame a tick emits: one draw command per map cell, then one per
/// entity carrying both a position and a renderable, in join order.
pub open spec fn frame_cmds(v: WorldView, key: Option<InputEvent>) -> Seq<DrawCmd> {
    map_cmds(v.map->Some_0) + entity_cmds(
        join_spec(tick_view(v, key).positions, tick_view(v, key).renderables),
    )
}

/// One discrete tick, strictly ordered and none of it skipped: apply the
/// pending input event, run the systems, flush the deferred mutation
/// queue, then join the renderable entities and emit the frame's draw
/// commands. The caller clears the surface, then performs them in order.
/// A store missing a table registration or the map resource cannot tick:
/// that is a configuration error and the store is left untouched.
pub fn tick(ecs: &mut World, key: Option<InputEvent>) -> (r: Result<Vec<DrawCmd>, WorldError>)
    requires
        old(ecs).wf(),
    ensures
        final(ecs).wf(),
        !(old(ecs)@.reg_position && old(ecs)@.reg_renderable && old(ecs)@.reg_player) ==> r
            == Err::<Vec<DrawCmd>, WorldError>(WorldError::Unregistered) && final(ecs)@ == old(
            ecs,
        )@,
        old(ecs)@.reg_position && old(ecs)@.reg_renderable && old(ecs)@.reg_player && old(
            ecs,
        )@.map is None ==> r == Err::<Vec<DrawCmd>, WorldError>(WorldError::MissingResource)
            && final(ecs)@ == old(ecs)@,
        tick_ready(old(ecs)@) ==> (r matches Ok(out) && final(ecs)@ == tick_view(old(ecs)@, key)
            && out@ == frame_cmds(old(ecs)@, key)),
{
    if !(ecs.position_registered() && ecs.renderable_registered() && ecs.player_registered()) {
        return Err(WorldError::Unregistered);
    }
    if !ecs.has_map() {
        return Err(WorldError::MissingResource);
    }
    let ghost v0 = ecs@;

    match player_input(ecs, key) {
        Ok(_) => {},
        Err(e) => {
            return Err(e);
        },
    }
    run_systems(ecs);
    proof {
        crate::world::lemma_apply_all_meta(input_view(v0, key), input_view(v0, key).pending);
    }

    let joined = match ecs.join_position_renderable() {
        Ok(j) => j,
        Err(e) => {
            return Err(e);
        },
    };
    let mut cmds = match ecs.fetch_map() {
        Ok(m) => draw_map(m),
        Err(_) => Vec::new(),
    };
    let ghost jseq = join_spec(tick_view(v0, key).positions, tick_view(v0, key).renderables);
    let n = joined.len();
    let mut k: usize = 0;
    while k < n
        invariant
            n == jseq.len(),
            k <= n,
            joined@ == jseq,
            cmds@.len() == map_cmds(v0.map->Some_0).len() + k,
            forall|j: int| 0 <= j < map_cmds(v0.map->Some_0).len() ==> cmds@[j] == map_cmds(
                v0.map->Some_0,
            )[j],
            forall|j: int|
                0 <= j < k ==> cmds@[map_cmds(v0.map->Some_0).len() + j] == entity_cmds(jseq)[j],
        decreases n - k,
    {
        let (_e, p, ren) = joined[k];
        cmds.push(DrawCmd { x: p.x, y: p.y, fg: ren.fg, bg: ren.bg, glyph: ren.glyph });
        k = k + 1;
    }
    proof {
        assert(cmds@ =~= frame_cmds(v0, key));
    }
    Ok(cmds)
}

/// The position, if any, lies on the grid.
pub open spec fn opt_in_bounds(o: Option<Position>) -> bool {
    match o {
        Some(p) => crate::in_bounds(p.x as int, p.y as int),
        None => true,
    }
}

/// Bounds invariant: when every controller-tagged entity starts a tick
/// with its position on the grid and no structural mutations are pending,
/// every controller-tagged entity ends the tick with its position on the
/// grid.
pub proof fn lemma_bounds_invariant(v: WorldView, key: Option<InputEvent>)
    requires
        crate::world::inv(v),
        v.pending.len() == 0,
        forall|i: int|
            0 <= i < v.players.len() && v.players[i] ==> opt_in_bounds(#[trigger] v.positions[i]),
    ensures
        forall|i: int|
            0 <= i < tick_view(v, key).players.len() && tick_view(v, key).players[i]
                ==> opt_in_bounds(#[trigger] tick_view(v, key).positions[i]),
{
    let u = input_view(v, key);
    let w = tick_view(v, key);
    assert(u.pending.len() == 0);
    assert(apply_all(u, u.pending) == u);
    assert(w =~= (WorldView { pending: Seq::empty(), ..u }));
    assert forall|i: int|
        0 <= i < w.players.len() && w.players[i] implies opt_in_bounds(
        #[trigger] w.positions[i],
    ) by {
        assert(w.positions[i] == u.positions[i]);
        assert(u.players[i] == v.players[i]);
        if input_applies(key) {
            let dx = spec_delta(key->Some_0).0;
            let dy = spec_delta(key->Some_0).1;
            assert(u.positions[i] == crate::movement::moved_positions(v, dx, dy)[i]);
            match v.positions[i] {
                Some(p) => {
                    assert(opt_in_bounds(v.positions[i]));
                    crate::movement::lemma_move_stays_in_bounds(p, dx, dy, v.map->Some_0);
                },
                None => {},
            }
        } else {
            assert(opt_in_bounds(v.positions[i]));
        }
    }
}

} // verus!
