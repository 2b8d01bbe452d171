use rogue_core::components::{Color, Position, Renderable};
use rogue_core::map::{TileMap, TileType};
use rogue_core::world::{Command, Entity, World, WorldError};

fn glyph_at(g: u16) -> Renderable {
    Renderable { glyph: g, fg: Color { r: 255, g: 255, b: 0 }, bg: Color { r: 0, g: 0, b: 0 } }
}

fn registered_world() -> World {
    let mut w = World::new();
    w.register_position();
    w.register_renderable();
    w.register_player();
    w
}

#[test]
fn builder_attaches_components_atomically() {
    let mut w = registered_world();
    let b = w
        .create_entity()
        .with_position(Position { x: 40, y: 25 })
        .with_renderable(glyph_at(64))
        .with_player();
    let e = w.build(b).unwrap();
    assert_eq!(w.read_position(e), Ok(Some(Position { x: 40, y: 25 })));
    assert_eq!(w.read_renderable(e), Ok(Some(glyph_at(64))));
    assert_eq!(w.read_player(e), Ok(true));
}

#[test]
fn unregistered_tables_fail_fast() {
    let mut w = World::new();
    let e = Entity { id: 0 };
    assert_eq!(w.read_position(e), Err(WorldError::Unregistered));
    assert_eq!(w.read_renderable(e), Err(WorldError::Unregistered));
    assert_eq!(w.read_player(e), Err(WorldError::Unregistered));
    assert!(matches!(w.join_position_renderable(), Err(WorldError::Unregistered)));
    let b = w.create_entity().with_position(Position { x: 1, y: 1 });
    assert_eq!(w.build(b), Err(WorldError::Unregistered));
    assert_eq!(
        w.queue(Command::AddPosition(e, Position { x: 1, y: 1 })),
        Err(WorldError::Unregistered)
    );
}

#[test]
fn fetch_map_before_insert_is_an_error() {
    let mut w = World::new();
    assert!(matches!(w.fetch_map(), Err(WorldError::MissingResource)));
    let map = TileMap::from_tiles(vec![TileType::Floor; 4000]).unwrap();
    w.insert_map(map);
    assert!(w.fetch_map().is_ok());
}

#[test]
fn join_returns_exactly_entities_with_both_components() {
    let mut w = registered_world();
    let b1 = w
        .create_entity()
        .with_position(Position { x: 1, y: 2 })
        .with_renderable(glyph_at(10));
    let both_a = w.build(b1).unwrap();
    let b2 = w.create_entity().with_position(Position { x: 3, y: 4 });
    let only_pos = w.build(b2).unwrap();
    let b3 = w.create_entity().with_renderable(glyph_at(11));
    let only_ren = w.build(b3).unwrap();
    let b4 = w
        .create_entity()
        .with_position(Position { x: 5, y: 6 })
        .with_renderable(glyph_at(12));
    let both_b = w.build(b4).unwrap();

    let joined = w.join_position_renderable().unwrap();
    assert_eq!(joined.len(), 2);
    assert_eq!(joined[0], (both_a, Position { x: 1, y: 2 }, glyph_at(10)));
    assert_eq!(joined[1], (both_b, Position { x: 5, y: 6 }, glyph_at(12)));
    assert!(joined.iter().all(|t| t.0 != only_pos && t.0 != only_ren));
}

#[test]
fn queued_mutations_invisible_until_maintain() {
    let mut w = registered_world();
    let b = w.create_entity().with_position(Position { x: 1, y: 1 });
    let e = w.build(b).unwrap();
    w.queue(Command::AddRenderable(e, glyph_at(7))).unwrap();
    // Still invisible: the entity lacks a renderable until maintain.
    assert_eq!(w.join_position_renderable().unwrap().len(), 0);
    assert_eq!(w.read_renderable(e), Ok(None));
    w.maintain();
    let joined = w.join_position_renderable().unwrap();
    assert_eq!(joined, vec![(e, Position { x: 1, y: 1 }, glyph_at(7))]);
}

#[test]
fn maintain_applies_in_submission_order() {
    let mut w = registered_world();
    let b = w.create_entity().with_player();
    let e = w.build(b).unwrap();
    w.queue(Command::AddPosition(e, Position { x: 1, y: 1 })).unwrap();
    w.queue(Command::AddPosition(e, Position { x: 9, y: 9 })).unwrap();
    w.maintain();
    // The later submission wins.
    assert_eq!(w.read_position(e), Ok(Some(Position { x: 9, y: 9 })));
}

#[test]
fn mutations_after_destroy_in_same_buffer_are_dropped() {
    let mut w = registered_world();
    let b = w.create_entity().with_position(Position { x: 2, y: 2 });
    let e = w.build(b).unwrap();
    w.queue(Command::DestroyEntity(e)).unwrap();
    w.queue(Command::AddPosition(e, Position { x: 5, y: 5 })).unwrap();
    w.queue(Command::AddRenderable(e, glyph_at(3))).unwrap();
    w.maintain();
    // Destruction removed every component, and the later adds were
    // silently dropped.
    assert_eq!(w.read_position(e), Ok(None));
    assert_eq!(w.read_renderable(e), Ok(None));
    assert_eq!(w.join_position_renderable().unwrap().len(), 0);
}

#[test]
fn mutations_on_never_created_entities_are_dropped() {
    let mut w = registered_world();
    let ghostly = Entity { id: 999 };
    w.queue(Command::AddPosition(ghostly, Position { x: 1, y: 1 })).unwrap();
    w.maintain();
    assert_eq!(w.read_position(ghostly), Ok(None));
}

#[test]
fn deferred_create_becomes_visible_after_maintain() {
    let mut w = registered_world();
    let b = w
        .create_entity()
        .with_position(Position { x: 8, y: 8 })
        .with_renderable(glyph_at(2));
    w.queue(Command::CreateEntity(b)).unwrap();
    assert_eq!(w.join_position_renderable().unwrap().len(), 0);
    w.maintain();
    let joined = w.join_position_renderable().unwrap();
    assert_eq!(joined.len(), 1);
    assert_eq!(joined[0].1, Position { x: 8, y: 8 });
    assert_eq!(joined[0].2, glyph_at(2));
}

#[test]
fn remove_detaches_one_component() {
    let mut w = registered_world();
    let b = w
        .create_entity()
        .with_position(Position { x: 4, y: 4 })
        .with_renderable(glyph_at(5))
        .with_player();
    let e = w.build(b).unwrap();
    w.queue(Command::RemoveRenderable(e)).unwrap();
    w.maintain();
    assert_eq!(w.read_position(e), Ok(Some(Position { x: 4, y: 4 })));
    assert_eq!(w.read_renderable(e), Ok(None));
    assert_eq!(w.read_player(e), Ok(true));
    assert_eq!(w.join_position_renderable().unwrap().len(), 0);
}
