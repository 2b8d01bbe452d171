use rogue_core::map::{new_map, xy_idx, is_passable, TileMap, TileType, MapError};

fn walled_box() -> Vec<TileType> {
    let mut tiles = vec![TileType::Floor; 4000];
    for x in 0..80usize {
        tiles[x] = TileType::Wall;
        tiles[49 * 80 + x] = TileType::Wall;
    }
    for y in 0..50usize {
        tiles[y * 80] = TileType::Wall;
        tiles[y * 80 + 79] = TileType::Wall;
    }
    tiles
}

#[test]
fn xy_idx_is_canonical() {
    assert_eq!(xy_idx(0, 0), 0);
    assert_eq!(xy_idx(79, 0), 79);
    assert_eq!(xy_idx(0, 1), 80);
    assert_eq!(xy_idx(40, 25), 2040);
    assert_eq!(xy_idx(79, 49), 3999);
}

#[test]
fn only_floor_is_passable() {
    assert!(is_passable(TileType::Floor));
    assert!(!is_passable(TileType::Wall));
}

#[test]
fn from_tiles_rejects_wrong_length() {
    let short = vec![TileType::Floor; 3999];
    assert!(matches!(TileMap::from_tiles(short), Err(MapError::WrongLength)));
    let long = vec![TileType::Floor; 4001];
    assert!(matches!(TileMap::from_tiles(long), Err(MapError::WrongLength)));
    assert!(TileMap::from_tiles(vec![TileType::Floor; 4000]).is_ok());
}

#[test]
fn tile_at_reads_cells_and_fails_off_grid() {
    let mut tiles = walled_box();
    tiles[25 * 80 + 41] = TileType::Wall;
    let map = TileMap::from_tiles(tiles).unwrap();
    assert_eq!(map.tile_at(40, 25), Ok(TileType::Floor));
    assert_eq!(map.tile_at(41, 25), Ok(TileType::Wall));
    assert_eq!(map.tile_at(0, 0), Ok(TileType::Wall));
    assert_eq!(map.tile_at(-1, 25), Err(MapError::OutOfBounds));
    assert_eq!(map.tile_at(80, 0), Err(MapError::OutOfBounds));
    assert_eq!(map.tile_at(0, 50), Err(MapError::OutOfBounds));
    assert_eq!(map.tile_at(0, -1), Err(MapError::OutOfBounds));
}

#[test]
fn generated_map_has_walled_borders() {
    let map = new_map();
    for x in 0..80 {
        assert_eq!(map.tile_at(x, 0), Ok(TileType::Wall));
        assert_eq!(map.tile_at(x, 49), Ok(TileType::Wall));
    }
    for y in 0..50 {
        assert_eq!(map.tile_at(0, y), Ok(TileType::Wall));
        assert_eq!(map.tile_at(79, y), Ok(TileType::Wall));
    }
}

#[test]
fn generated_map_keeps_spawn_floor() {
    // Regardless of the random wall draws, the spawn cell stays a floor.
    for _ in 0..5 {
        let map = new_map();
        assert_eq!(map.tile_at(40, 25), Ok(TileType::Floor));
    }
}
