use rogue_core::components::{Color, Position, Renderable};
use rogue_core::map::{TileMap, TileType};
use rogue_core::movement::try_move_player;
use rogue_core::frame::{tick, InputEvent};
use rogue_core::world::{Command, World, WorldError};

fn walled_box(extra_walls: &[(usize, usize)]) -> TileMap {
    let mut tiles = vec![TileType::Floor; 4000];
    for x in 0..80usize {
        tiles[x] = TileType::Wall;
        tiles[49 * 80 + x] = TileType::Wall;
    }
    for y in 0..50usize {
        tiles[y * 80] = TileType::Wall;
        tiles[y * 80 + 79] = TileType::Wall;
    }
    for &(x, y) in extra_walls {
        tiles[y * 80 + x] = TileType::Wall;
    }
    TileMap::from_tiles(tiles).unwrap()
}

fn yellow_at(glyph: u16) -> Renderable {
    Renderable { glyph, fg: Color { r: 255, g: 255, b: 0 }, bg: Color { r: 0, g: 0, b: 0 } }
}

fn world_with_player(pos: Position, extra_walls: &[(usize, usize)]) -> World {
    let mut w = World::new();
    w.register_position();
    w.register_renderable();
    w.register_player();
    w.insert_map(walled_box(extra_walls));
    let b = w
        .create_entity()
        .with_position(pos)
        .with_renderable(yellow_at(64))
        .with_player();
    w.build(b).unwrap();
    w
}

fn player_position(w: &World) -> Position {
    let joined = w.join_position_renderable().unwrap();
    assert_eq!(joined.len(), 1);
    joined[0].1
}

#[test]
fn interior_floor_move_commits() {
    // Entity at (40,25), delta (1,0), floor at (41,25): lands on (41,25).
    let mut w = world_with_player(Position { x: 40, y: 25 }, &[]);
    try_move_player(1, 0, &mut w).unwrap();
    assert_eq!(player_position(&w), Position { x: 41, y: 25 });
}

#[test]
fn wall_rejects_move_entirely() {
    // Entity at (1,25), delta (-1,0), wall at (0,25): stays at (1,25).
    let mut w = world_with_player(Position { x: 1, y: 25 }, &[]);
    try_move_player(-1, 0, &mut w).unwrap();
    assert_eq!(player_position(&w), Position { x: 1, y: 25 });
}

#[test]
fn interior_wall_rejects_move() {
    let mut w = world_with_player(Position { x: 40, y: 25 }, &[(41, 25)]);
    try_move_player(1, 0, &mut w).unwrap();
    assert_eq!(player_position(&w), Position { x: 40, y: 25 });
}

#[test]
fn border_entity_stays_on_grid_for_any_outward_delta() {
    // A pre-existing entity already on the border cell (0,25): every
    // outward delta leaves the position inside [0,79] x [0,49].
    for (dx, dy) in [(-1, 0), (0, -1), (0, 1), (-1, -1)] {
        let mut w = world_with_player(Position { x: 0, y: 25 }, &[]);
        try_move_player(dx, dy, &mut w).unwrap();
        let p = player_position(&w);
        assert!(0 <= p.x && p.x <= 79 && 0 <= p.y && p.y <= 49);
    }
}

#[test]
fn every_tagged_entity_moves_independently() {
    let mut w = world_with_player(Position { x: 40, y: 25 }, &[(11, 10)]);
    let blocked = w
        .create_entity()
        .with_position(Position { x: 10, y: 10 })
        .with_renderable(yellow_at(65))
        .with_player();
    let blocked = w.build(blocked).unwrap();
    let bystander = w
        .create_entity()
        .with_position(Position { x: 20, y: 20 })
        .with_renderable(yellow_at(66));
    let bystander = w.build(bystander).unwrap();
    try_move_player(1, 0, &mut w).unwrap();
    // One entity's wall does not block another's move.
    assert_eq!(w.read_position(blocked), Ok(Some(Position { x: 10, y: 10 })));
    // The untagged entity receives no delta at all.
    assert_eq!(w.read_position(bystander), Ok(Some(Position { x: 20, y: 20 })));
    let joined = w.join_position_renderable().unwrap();
    assert_eq!(joined[0].1, Position { x: 41, y: 25 });
}

#[test]
fn movement_without_map_or_registration_fails_fast() {
    let mut w = World::new();
    assert_eq!(try_move_player(1, 0, &mut w), Err(WorldError::Unregistered));
    w.register_position();
    w.register_player();
    assert_eq!(try_move_player(1, 0, &mut w), Err(WorldError::MissingResource));
}

#[test]
fn tick_applies_cardinal_input() {
    let mut w = world_with_player(Position { x: 40, y: 25 }, &[]);
    tick(&mut w, Some(InputEvent::Right)).unwrap();
    assert_eq!(player_position(&w), Position { x: 41, y: 25 });
    tick(&mut w, Some(InputEvent::Down)).unwrap();
    assert_eq!(player_position(&w), Position { x: 41, y: 26 });
    tick(&mut w, Some(InputEvent::Left)).unwrap();
    tick(&mut w, Some(InputEvent::Up)).unwrap();
    assert_eq!(player_position(&w), Position { x: 40, y: 25 });
}

#[test]
fn tick_ignores_absent_or_unrecognized_input() {
    let mut w = world_with_player(Position { x: 40, y: 25 }, &[]);
    tick(&mut w, None).unwrap();
    assert_eq!(player_position(&w), Position { x: 40, y: 25 });
    tick(&mut w, Some(InputEvent::Other)).unwrap();
    assert_eq!(player_position(&w), Position { x: 40, y: 25 });
}

#[test]
fn tick_emits_map_cells_then_entities() {
    let mut w = world_with_player(Position { x: 40, y: 25 }, &[]);
    let cmds = tick(&mut w, None).unwrap();
    assert_eq!(cmds.len(), 4001);
    // Cell (0,0) is a border wall: a hash, green on black.
    assert_eq!(cmds[0].x, 0);
    assert_eq!(cmds[0].y, 0);
    assert_eq!(cmds[0].glyph, 35);
    assert_eq!(cmds[0].fg, Color { r: 0, g: 255, b: 0 });
    assert_eq!(cmds[0].bg, Color { r: 0, g: 0, b: 0 });
    // Cell (40,25) is an interior floor: a dot, grey on black.
    let c = cmds[25 * 80 + 40];
    assert_eq!((c.x, c.y), (40, 25));
    assert_eq!(c.glyph, 46);
    assert_eq!(c.fg, Color { r: 128, g: 128, b: 128 });
    // The one renderable entity is drawn last, at its position.
    let e = cmds[4000];
    assert_eq!((e.x, e.y), (40, 25));
    assert_eq!(e.glyph, 64);
    assert_eq!(e.fg, Color { r: 255, g: 255, b: 0 });
}

#[test]
fn tick_flushes_the_deferred_queue() {
    let mut w = world_with_player(Position { x: 40, y: 25 }, &[]);
    let b = w
        .create_entity()
        .with_position(Position { x: 10, y: 10 })
        .with_renderable(yellow_at(33));
    w.queue(Command::CreateEntity(b)).unwrap();
    // The queued entity is applied at maintain, inside this tick, so it is
    // already part of this tick's render query.
    let cmds = tick(&mut w, None).unwrap();
    assert_eq!(cmds.len(), 4002);
    assert_eq!(w.join_position_renderable().unwrap().len(), 2);
}

#[test]
fn tick_on_an_unconfigured_world_fails_fast() {
    let mut w = World::new();
    assert_eq!(tick(&mut w, None), Err(WorldError::Unregistered));
    w.register_position();
    w.register_renderable();
    w.register_player();
    assert_eq!(tick(&mut w, None), Err(WorldError::MissingResource));
}

#[test]
fn bounds_hold_over_many_ticks() {
    let mut w = world_with_player(Position { x: 40, y: 25 }, &[]);
    let keys = [InputEvent::Left, InputEvent::Up, InputEvent::Left, InputEvent::Down];
    for _ in 0..60 {
        for k in keys {
            tick(&mut w, Some(k)).unwrap();
            let p = player_position(&w);
            assert!(0 <= p.x && p.x <= 79 && 0 <= p.y && p.y <= 49);
        }
    }
}
