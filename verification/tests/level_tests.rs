use ghostblade::level::Level;
use ghostblade::types::Position;
use ghostblade::types::TileType;

#[test]
fn test_level_map_consistency() {
    for level_num in 1..=10 {
        if let Some(level) = Level::load(level_num) {
            // Verify the map size is consistent with the actual map dimensions
            assert_eq!(level.map.len() as u8, level.map_size.0);

            // Verify all rows have the same length
            for row in &level.map {
                assert_eq!(row.len() as u8, level.map_size.1);
            }

            // Verify player start is within bounds
            assert!(
                level.player_start.row >= 0 && level.player_start.row < level.map_size.0 as i16
            );
            assert!(
                level.player_start.col >= 0 && level.player_start.col < level.map_size.1 as i16
            );
        }
    }
}

#[test]
fn test_level_goal_exists() {
    for level_num in 1..=10 {
        if let Some(level) = Level::load(level_num) {
            let mut has_goal = false;
            let mut has_princess = false;

            for row in &level.map {
                for tile in row {
                    if *tile == TileType::Goal {
                        has_goal = true;
                    } else if *tile == TileType::Princess {
                        has_princess = true;
                    }
                }
            }

            assert!(
                has_goal || has_princess,
                "Level {} has no goal or princess",
                level_num
            );
        }
    }
}

#[test]
fn test_set_tile_boundaries() {
    if let Some(mut level) = Level::load(1) {
        let valid_pos = Position { row: 1, col: 1 };
        let original_tile = level.get_tile(&valid_pos).unwrap();

        level.set_tile(&valid_pos, TileType::Key);
        assert_eq!(level.get_tile(&valid_pos).unwrap(), TileType::Key);

        level.set_tile(&valid_pos, original_tile);

        let invalid_pos = Position {
            row: level.map_size.0 as i16 + 5,
            col: level.map_size.1 as i16 + 5,
        };

        level.set_tile(&invalid_pos, TileType::Key);

        let negative_pos = Position { row: -1, col: -1 };
        level.set_tile(&negative_pos, TileType::Key);
    } else {
        panic!("Could not load level 1 for testing");
    }
}

#[test]
fn test_get_tile_returns_none_for_invalid_positions() {
    if let Some(level) = Level::load(1) {
        let invalid_pos = Position {
            row: level.map_size.0 as i16 + 1,
            col: level.map_size.1 as i16 + 1,
        };

        assert!(level.get_tile(&invalid_pos).is_none());

        let negative_pos = Position { row: -1, col: -1 };
        assert!(level.get_tile(&negative_pos).is_none());
    } else {
        panic!("Could not load level 1 for testing");
    }
}

#[test]
fn test_decode_small_layout() {
    // 2 x 3 layout: a wall, a key, empty cells, a spawn marker, an enemy
    // marker, and a goal.
    let level = Level::decode(b"tks\npeg").expect("layout should decode");

    assert_eq!(level.map_size, (2, 3));
    assert_eq!(level.get_tile(&Position { row: 0, col: 0 }), Some(TileType::Wall));
    assert_eq!(level.get_tile(&Position { row: 0, col: 1 }), Some(TileType::Key));
    assert_eq!(level.get_tile(&Position { row: 0, col: 2 }), Some(TileType::Empty));
    // The markers decode to empty cells.
    assert_eq!(level.get_tile(&Position { row: 1, col: 0 }), Some(TileType::Empty));
    assert_eq!(level.get_tile(&Position { row: 1, col: 1 }), Some(TileType::Empty));
    assert_eq!(level.get_tile(&Position { row: 1, col: 2 }), Some(TileType::Goal));

    assert_eq!(level.player_start, Position { row: 1, col: 0 });
    assert_eq!(level.enemies, vec![Position { row: 1, col: 1 }]);
}

#[test]
fn test_decode_unknown_bytes_are_empty() {
    let level = Level::decode(b"?!\nqq").expect("layout should decode");
    for row in 0..2 {
        for col in 0..2 {
            assert_eq!(level.get_tile(&Position { row, col }), Some(TileType::Empty));
        }
    }
}

#[test]
fn test_decode_last_spawn_marker_wins() {
    let level = Level::decode(b"ps\nsp").expect("layout should decode");
    assert_eq!(level.player_start, Position { row: 1, col: 1 });
}

#[test]
fn test_decode_carriage_returns_are_trimmed() {
    let level = Level::decode(b"ts\r\nsg\r").expect("layout should decode");
    assert_eq!(level.map_size, (2, 2));
    assert_eq!(level.get_tile(&Position { row: 1, col: 1 }), Some(TileType::Goal));
}

#[test]
fn test_decode_rejects_malformed_layouts() {
    // Ragged rows.
    assert!(Level::decode(b"ttt\ntt").is_none());
    // Empty text and an empty first row.
    assert!(Level::decode(b"").is_none());
    assert!(Level::decode(b"\nttt").is_none());
}

#[test]
fn test_load_out_of_range_levels() {
    assert!(Level::load(0).is_none());
    assert!(Level::load(11).is_none());
    for level_num in 1..=10 {
        assert!(Level::load(level_num).is_some());
    }
}
