//! The world map: a fixed 80x50 grid of tiles, with the coordinate/index
//! bijection, the passability rule, and the random generator that carves
//! walls into an all-floor field while keeping the borders solid and the
//! spawn cell clear.

use vstd::prelude::*;

verus! {

/// Classification of one map cell, used both for collision and rendering.
#[derive(Copy, Clone, PartialEq, Eq, Structural, Debug)]
pub enum TileType {
    Wall,
    Floor,
}

/// Errors raised by the map layer.
#[derive(Copy, Clone, PartialEq, Eq, Structural, Debug)]
pub enum MapError {
    /// A cell outside `[0, WIDTH) x [0, HEIGHT)` was addressed.
    OutOfBounds,
    /// A tile vector of the wrong length was offered as a map.
    WrongLength,
}

/// The x coordinate of the cell the player spawns on.
pub const SPAWN_X: i32 = 40;

/// The y coordinate of the cell the player spawns on.
pub const SPAWN_Y: i32 = 25;

/// Tile index of the grid cell `(x, y)`.
pub open spec fn spec_idx(x: int, y: int) -> int {
    y * 80 + x
}

/// The cell `(x, y)` lies on the outer border of the grid.
pub open spec fn is_border(x: int, y: int) -> bool {
    x == 0 || x == 79 || y == 0 || y == 49
}

/// Every border cell of the tile sequence is a wall.
pub open spec fn borders_walled(tiles: Seq<TileType>) -> bool {
    forall|x: int, y: int|
        crate::in_bounds(x, y) && is_border(x, y) ==> tiles[#[trigger] spec_idx(x, y)]
            == TileType::Wall
}

/// Canonical bijection from grid coordinates to the tile index.
pub fn xy_idx(x: i32, y: i32) -> (r: usize)
    requires
        crate::in_bounds(x as int, y as int),
    ensures
        r == spec_idx(x as int, y as int),
        r < 4000,
{
    (y as usize) * 80 + (x as usize)
}

/// A tile is passable exactly when it is a floor.
pub fn is_passable(tile: TileType) -> (r: bool)
    ensures
        r == (tile == TileType::Floor),
{
    tile == TileType::Floor
}

/// The fixed-size tile grid. It is generated once and read thereafter;
/// every value of this type holds exactly `MAP_LEN` tiles.
pub struct TileMap {
    tiles: Vec<TileType>,
}

impl View for TileMap {
    type V = Seq<TileType>;

    closed spec fn view(&self) -> Seq<TileType> {
        self.tiles@
    }
}

impl TileMap {
    /// Every map holds one tile per grid cell.
    #[verifier::type_invariant]
    pub open spec fn wf(self) -> bool {
        self@.len() == 4000
    }

    /// The tile at `(x, y)`, as the specification sees it.
    pub open spec fn spec_tile_at(self, x: int, y: int) -> TileType {
        self@[spec_idx(x, y)]
    }

    /// Builds a map from an explicit tile vector; rejects any vector that
    /// does not hold exactly one tile per grid cell.
    pub fn from_tiles(tiles: Vec<TileType>) -> (r: Result<TileMap, MapError>)
        ensures
            tiles@.len() == 4000 ==> (r matches Ok(m) && m@ == tiles@),
            tiles@.len() != 4000 ==> r == Err::<TileMap, MapError>(MapError::WrongLength),
    {
        if tiles.len() == 4000 {
            Ok(TileMap { tiles })
        } else {
            Err(MapError::WrongLength)
        }
    }

    /// The tile classification at `(x, y)`; addressing a cell off the grid
    /// fails loudly with an out-of-bounds error, never wraps or clamps.
    pub fn tile_at(&self, x: i32, y: i32) -> (r: Result<TileType, MapError>)
        ensures
            crate::in_bounds(x as int, y as int) ==> r == Ok::<TileType, MapError>(
                self.spec_tile_at(x as int, y as int),
            ),
            !crate::in_bounds(x as int, y as int) ==> r == Err::<TileType, MapError>(
                MapError::OutOfBounds,
            ),
    {
        proof {
            use_type_invariant(self);
        }
        if 0 <= x && x < crate::WIDTH && 0 <= y && y < crate::HEIGHT {
            Ok(self.tiles[xy_idx(x, y)])
        } else {
            Err(MapError::OutOfBounds)
        }
    }
}

/// Relies on rltk::RandomNumberGenerator, a seeded pseudo-random generator.
#[verifier::external_type_specification]
#[verifier::external_body]
pub struct ExRandomNumberGenerator(rltk::RandomNumberGenerator);

/// Relies on rltk::RandomNumberGenerator::new to produce a generator;
/// nothing is assumed of the values it will draw.
#[verifier::external_body]
fn rng_new() -> rltk::RandomNumberGenerator {
    rltk::RandomNumberGenerator::new()
}

/// Relies on rltk::RandomNumberGenerator::roll_dice: the sum of `n` draws,
/// each uniform in `[1, die_type]`, so the result lies in `[n, n * die_type]`.
/// Which value comes back is left open: callers must hold for every outcome.
/// The bounds keep the call's own arithmetic, `die_type + 1` and the running
/// sum, inside `i32`.
#[verifier::external_body]
fn roll_dice(rng: &mut rltk::RandomNumberGenerator, n: i32, die_type: i32) -> (r: i32)
    requires
        1 <= n,
        1 <= die_type < i32::MAX,
        n * die_type <= i32::MAX,
    ensures
        n <= r <= n * die_type,
{
    rng.roll_dice(n, die_type)
}

/// Generates the world map: an all-floor field, all border cells forced to
/// walls, then 400 independent random draws each turning one cell into a
/// wall — skipping any draw that lands on the player's spawn cell, which is
/// therefore always a floor. No connectivity between floor cells is checked.
pub fn new_map() -> (m: TileMap)
    ensures
        borders_walled(m@),
        m.spec_tile_at(SPAWN_X as int, SPAWN_Y as int) == TileType::Floor,
{
    let mut map: Vec<TileType> = Vec::new();
    let mut i: usize = 0;
    while i < 4000
        invariant
            map@.len() == i,
            i <= 4000,
            forall|k: int| 0 <= k < i ==> map@[k] == TileType::Floor,
        decreases 4000 - i,
    {
        map.push(TileType::Floor);
        i = i + 1;
    }

    // Make the borders walls.
    let mut x: i32 = 0;
    while x < 80
        invariant
            0 <= x <= 80,
            map@.len() == 4000,
            forall|k: int|
                0 <= k < x ==> map@[#[trigger] spec_idx(k, 0)] == TileType::Wall && map@[spec_idx(
                    k,
                    49,
                )] == TileType::Wall,
            forall|cx: int, cy: int|
                crate::in_bounds(cx, cy) && !is_border(cx, cy) ==> map@[#[trigger] spec_idx(
                    cx,
                    cy,
                )] == TileType::Floor,
        decreases 80 - x,
    {
        let i0 = xy_idx(x, 0);
        map[i0] = TileType::Wall;
        let i49 = xy_idx(x, 49);
        map[i49] = TileType::Wall;
        x = x + 1;
    }

    let mut y: i32 = 0;
    while y < 50
        invariant
            0 <= y <= 50,
            map@.len() == 4000,
            forall|k: int|
                0 <= k < 80 ==> map@[#[trigger] spec_idx(k, 0)] == TileType::Wall && map@[spec_idx(
                    k,
                    49,
                )] == TileType::Wall,
            forall|k: int|
                0 <= k < y ==> map@[#[trigger] spec_idx(0, k)] == TileType::Wall && map@[spec_idx(
                    79,
                    k,
                )] == TileType::Wall,
            forall|cx: int, cy: int|
                crate::in_bounds(cx, cy) && !is_border(cx, cy) ==> map@[#[trigger] spec_idx(
                    cx,
                    cy,
                )] == TileType::Floor,
        decreases 50 - y,
    {
        let iw = xy_idx(0, y);
        map[iw] = TileType::Wall;
        let ie = xy_idx(79, y);
        map[ie] = TileType::Wall;
        y = y + 1;
    }

    proof {
        assert forall|bx: int, by: int|
            crate::in_bounds(bx, by) && is_border(bx, by) implies map@[#[trigger] spec_idx(bx, by)]
            == TileType::Wall by {
            if by == 0 {
                assert(map@[spec_idx(bx, 0)] == TileType::Wall);
            } else if by == 49 {
                assert(map@[spec_idx(bx, 49)] == TileType::Wall);
            } else if bx == 0 {
                assert(map@[spec_idx(0, by)] == TileType::Wall);
            } else {
                assert(map@[spec_idx(79, by)] == TileType::Wall);
            }
        }
    }
    assert(borders_walled(map@));
    assert(map@[spec_idx(SPAWN_X as int, SPAWN_Y as int)] == TileType::Floor);

    // Randomly place a bunch of walls, never on top of the player's spawn.
    let spawn_idx = xy_idx(SPAWN_X, SPAWN_Y);
    let mut rng = rng_new();
    let mut round: u32 = 0;
    while round < 400
        invariant
            map@.len() == 4000,
            borders_walled(map@),
            map@[spec_idx(SPAWN_X as int, SPAWN_Y as int)] == TileType::Floor,
            spawn_idx == spec_idx(SPAWN_X as int, SPAWN_Y as int),
        decreases 400 - round,
    {
        let rx = roll_dice(&mut rng, 1, 78);
        let ry = roll_dice(&mut rng, 1, 48);
        let idx = xy_idx(rx, ry);
        if idx != spawn_idx {
            map[idx] = TileType::Wall;
        }
        round = round + 1;
    }

    TileMap { tiles: map }
}

} // verus!
