use ghostblade::game::Game;
use ghostblade::level::Level;
use ghostblade::types::CollisionType;
use ghostblade::types::ItemType;
use ghostblade::types::Position;
use ghostblade::types::TileType;

fn game_from(layout: &[u8]) -> Game {
    let level = Level::decode(layout).expect("layout should decode");
    Game { current_level: 1, max_levels: 10, level, boss_health: 3 }
}

fn count_items(player: &ghostblade::player::Player, item: ItemType) -> usize {
    player.inventory.iter().filter(|&&i| i == item).count()
}

#[test]
fn test_item_pickup_cannot_repeat() {
    let mut game = game_from(b"pks");
    let mut player = game.init_player();

    player.move_right();
    let target = player.get_pending_move().unwrap();
    assert!(matches!(game.check_collision(&target), CollisionType::Interactive(_)));

    let died = game.handle_interaction(&mut player);
    assert!(!died);
    assert!(player.has_item(ItemType::Key));
    assert_eq!(player.pos, Position { row: 0, col: 1 });
    assert_eq!(game.level.get_tile(&target), Some(TileType::Empty));

    // The second attempt on the same cell classifies as free, not
    // interactive: the pickup cannot repeat.
    assert_eq!(game.check_collision(&target), CollisionType::NoCollision);
}

#[test]
fn test_wood_log_with_axe_and_water_right_builds_canoe() {
    let mut game = game_from(b"plw");
    let mut player = game.init_player();
    player.add_item(ItemType::Axe);

    player.move_right();
    let died = game.handle_interaction(&mut player);

    assert!(!died);
    assert_eq!(game.level.get_tile(&Position { row: 0, col: 2 }), Some(TileType::Canoe));
    assert_eq!(game.level.get_tile(&Position { row: 0, col: 1 }), Some(TileType::Empty));
    assert!(!player.has_item(ItemType::Axe));
    // The move is not applied.
    assert_eq!(player.pos, Position { row: 0, col: 0 });
    assert_eq!(player.get_pending_move(), None);
}

#[test]
fn test_wood_log_with_axe_and_no_water_chops_log() {
    let mut game = game_from(b"pls");
    let mut player = game.init_player();
    player.add_item(ItemType::Axe);

    player.move_right();
    let died = game.handle_interaction(&mut player);

    assert!(!died);
    assert_eq!(game.level.get_tile(&Position { row: 0, col: 1 }), Some(TileType::Empty));
    assert_eq!(game.level.get_tile(&Position { row: 0, col: 2 }), Some(TileType::Empty));
    assert!(!player.has_item(ItemType::Axe));
    // The move is applied: the player occupies the former log cell.
    assert_eq!(player.pos, Position { row: 0, col: 1 });
}

#[test]
fn test_wood_log_without_axe_changes_nothing() {
    let mut game = game_from(b"pl");
    let mut player = game.init_player();

    player.move_right();
    let died = game.handle_interaction(&mut player);

    assert!(!died);
    assert_eq!(game.level.get_tile(&Position { row: 0, col: 1 }), Some(TileType::WoodLog));
    assert_eq!(player.pos, Position { row: 0, col: 0 });
    assert_eq!(player.get_pending_move(), None);
}

#[test]
fn test_door_opens_with_key_and_move_cancels() {
    let mut game = game_from(b"pd");
    let mut player = game.init_player();
    player.add_item(ItemType::Key);

    player.move_right();
    let died = game.handle_interaction(&mut player);

    assert!(!died);
    assert_eq!(game.level.get_tile(&Position { row: 0, col: 1 }), Some(TileType::DoorOpen));
    assert!(!player.has_item(ItemType::Key));
    assert_eq!(player.pos, Position { row: 0, col: 0 });
}

#[test]
fn test_cottage_yields_bomb_and_rock_crumbles() {
    let mut game = game_from(b"phr");
    let mut player = game.init_player();

    player.move_right();
    let died = game.handle_interaction(&mut player);
    assert!(!died);
    assert_eq!(game.level.get_tile(&Position { row: 0, col: 1 }), Some(TileType::Tomb));
    assert!(player.has_item(ItemType::Bomb));
    assert_eq!(player.pos, Position { row: 0, col: 0 });

    // Walk next to the rock and bomb it.
    player.reset_position(Position { row: 0, col: 1 });
    player.move_right();
    let died = game.handle_interaction(&mut player);
    assert!(!died);
    assert_eq!(game.level.get_tile(&Position { row: 0, col: 2 }), Some(TileType::Empty));
    assert!(!player.has_item(ItemType::Bomb));
    assert_eq!(player.pos, Position { row: 0, col: 1 });
}

#[test]
fn test_crystal_puzzle_grants_wind_chime_exactly_once() {
    let mut game = game_from(b"pABC\ns345");
    let mut player = game.init_player();

    // Clear crystal A: its flame vanishes, no wind chime yet.
    player.move_right();
    game.handle_interaction(&mut player);
    assert_eq!(game.level.get_tile(&Position { row: 0, col: 1 }), Some(TileType::Alembic));
    assert_eq!(game.level.get_tile(&Position { row: 1, col: 1 }), Some(TileType::Empty));
    assert!(!player.has_item(ItemType::WindChime));

    // Clear crystal B: still no wind chime.
    player.reset_position(Position { row: 0, col: 1 });
    player.move_right();
    game.handle_interaction(&mut player);
    assert_eq!(game.level.get_tile(&Position { row: 0, col: 2 }), Some(TileType::Alembic));
    assert!(!player.has_item(ItemType::WindChime));

    // Clear crystal C: the last flame goes, exactly one wind chime granted.
    player.reset_position(Position { row: 0, col: 2 });
    player.move_right();
    game.handle_interaction(&mut player);
    assert_eq!(count_items(&player, ItemType::WindChime), 1);

    // No flame of any kind remains anywhere on the map.
    for row in 0..2i16 {
        for col in 0..4i16 {
            let t = game.level.get_tile(&Position { row, col }).unwrap();
            assert!(t != TileType::FlameA && t != TileType::FlameB && t != TileType::FlameC);
        }
    }
}

#[test]
fn test_hook_start_with_aligned_end_links_segment() {
    let mut game = game_from(b"p1s2");
    let mut player = game.init_player();
    player.add_item(ItemType::Hook);

    player.move_right();
    let died = game.handle_interaction(&mut player);

    assert!(!died);
    for col in 1..=3i16 {
        assert_eq!(game.level.get_tile(&Position { row: 0, col }), Some(TileType::Link));
    }
    assert!(!player.has_item(ItemType::Hook));
    assert_eq!(player.pos, Position { row: 0, col: 0 });
}

#[test]
fn test_hook_start_with_unaligned_end_links_start_only() {
    let mut game = game_from(b"p1s\nss2");
    let mut player = game.init_player();
    player.add_item(ItemType::Hook);

    player.move_right();
    game.handle_interaction(&mut player);

    assert_eq!(game.level.get_tile(&Position { row: 0, col: 1 }), Some(TileType::Link));
    assert_eq!(game.level.get_tile(&Position { row: 0, col: 2 }), Some(TileType::Empty));
    assert_eq!(game.level.get_tile(&Position { row: 1, col: 2 }), Some(TileType::HookEnd));
    assert!(!player.has_item(ItemType::Hook));
}

#[test]
fn test_hook_start_without_end_still_consumes_hook() {
    let mut game = game_from(b"p1s");
    let mut player = game.init_player();
    player.add_item(ItemType::Hook);

    player.move_right();
    game.handle_interaction(&mut player);

    // No hook end anywhere: no cell is mutated, but the hook is consumed.
    assert_eq!(game.level.get_tile(&Position { row: 0, col: 1 }), Some(TileType::HookStart));
    assert!(!player.has_item(ItemType::Hook));
    assert_eq!(player.pos, Position { row: 0, col: 0 });
}

#[test]
fn test_hook_start_aligned_column_links_segment() {
    let mut game = game_from(b"p1\ns2");
    let mut player = game.init_player();
    player.add_item(ItemType::Hook);

    player.move_right();
    game.handle_interaction(&mut player);

    assert_eq!(game.level.get_tile(&Position { row: 0, col: 1 }), Some(TileType::Link));
    assert_eq!(game.level.get_tile(&Position { row: 1, col: 1 }), Some(TileType::Link));
}

#[test]
fn test_boss_sequence_with_dragon_sword() {
    let mut game = game_from(b"ps0");
    let mut player = game.init_player();
    player.add_item(ItemType::DragonSword);
    let spawn = game.get_player_start();
    let boss_pos = Position { row: 0, col: 2 };

    // First clash: pushed back to spawn, boss still standing.
    player.reset_position(Position { row: 0, col: 1 });
    player.move_right();
    let died = game.handle_interaction(&mut player);
    assert!(!died);
    assert_eq!(player.pos, spawn);
    assert_eq!(game.level.get_tile(&boss_pos), Some(TileType::Boss));

    // Second clash: the same.
    player.reset_position(Position { row: 0, col: 1 });
    player.move_right();
    let died = game.handle_interaction(&mut player);
    assert!(!died);
    assert_eq!(player.pos, spawn);
    assert_eq!(game.level.get_tile(&boss_pos), Some(TileType::Boss));

    // Third clash: the boss falls, the move commits.
    player.reset_position(Position { row: 0, col: 1 });
    player.move_right();
    let died = game.handle_interaction(&mut player);
    assert!(!died);
    assert_eq!(game.level.get_tile(&boss_pos), Some(TileType::Empty));
    assert_eq!(player.pos, boss_pos);
}

#[test]
fn test_enemy_without_sword_resets_to_spawn() {
    let mut game = game_from(b"pse");
    let mut player = game.init_player();
    let spawn = game.get_player_start();

    player.reset_position(Position { row: 0, col: 1 });
    player.move_right();
    let died = game.handle_interaction(&mut player);

    assert!(died);
    assert_eq!(player.pos, spawn);
    assert_eq!(game.level.enemies, vec![Position { row: 0, col: 2 }]);
}

#[test]
fn test_enemy_with_sword_is_slain() {
    let mut game = game_from(b"pse");
    let mut player = game.init_player();
    player.add_item(ItemType::Sword);

    player.reset_position(Position { row: 0, col: 1 });
    player.move_right();
    let died = game.handle_interaction(&mut player);

    assert!(!died);
    assert!(game.level.enemies.is_empty());
    assert!(!player.has_item(ItemType::Sword));
    assert_eq!(player.pos, Position { row: 0, col: 2 });
}

#[test]
fn test_oni_without_wind_chime_resets_to_spawn() {
    let mut game = game_from(b"po");
    let mut player = game.init_player();
    let spawn = game.get_player_start();

    player.move_right();
    let died = game.handle_interaction(&mut player);

    assert!(died);
    assert_eq!(player.pos, spawn);
    assert_eq!(game.level.get_tile(&Position { row: 0, col: 1 }), Some(TileType::Oni));
}

#[test]
fn test_oni_with_wind_chime_yields_dragon_sword() {
    let mut game = game_from(b"po");
    let mut player = game.init_player();
    player.add_item(ItemType::WindChime);

    player.move_right();
    let died = game.handle_interaction(&mut player);

    assert!(!died);
    assert_eq!(game.level.get_tile(&Position { row: 0, col: 1 }), Some(TileType::Empty));
    assert!(!player.has_item(ItemType::WindChime));
    assert!(player.has_item(ItemType::DragonSword));
    assert_eq!(player.pos, Position { row: 0, col: 1 });
}

#[test]
fn test_boss_without_dragon_sword_resets_to_spawn() {
    let mut game = game_from(b"p0");
    let mut player = game.init_player();
    let spawn = game.get_player_start();

    player.move_right();
    let died = game.handle_interaction(&mut player);

    assert!(died);
    assert_eq!(player.pos, spawn);
    assert_eq!(game.level.get_tile(&Position { row: 0, col: 1 }), Some(TileType::Boss));
}

#[test]
fn test_enemy_tick_never_enters_wall() {
    let mut game = game_from(b"et");
    // Repeated ticks, always-true coin, fixed direction toward the wall.
    for _ in 0..10 {
        game.tick_enemies(&vec![(true, 0)]);
        assert_eq!(game.level.enemies, vec![Position { row: 0, col: 0 }]);
    }
}

#[test]
fn test_enemy_tick_with_false_coin_moves_nobody() {
    let mut game = game_from(b"es\nse");
    let before = game.level.enemies.clone();
    for dir in 0..4u32 {
        game.tick_enemies(&vec![(false, dir), (false, dir)]);
        assert_eq!(game.level.enemies, before);
    }
}

#[test]
fn test_enemy_tick_moves_onto_free_cell() {
    let mut game = game_from(b"es");
    game.tick_enemies(&vec![(true, 0)]);
    assert_eq!(game.level.enemies, vec![Position { row: 0, col: 1 }]);
}

#[test]
fn test_update_enemies_keeps_enemies_on_free_cells() {
    // A single cell: every attempted move is out of bounds, so whatever the
    // generator draws, the enemy stays.
    let mut game = game_from(b"e");
    for _ in 0..20 {
        game.update_enemies();
        assert_eq!(game.level.enemies, vec![Position { row: 0, col: 0 }]);
    }
}

#[test]
fn test_advance_level_beyond_maximum_returns_false() {
    let mut game = Game::new().expect("Failed to load first level");
    let mut advanced = 0;
    while game.advance_level() {
        advanced += 1;
        assert!(advanced <= 9, "advance_level never returned false");
    }
    assert_eq!(advanced, 9);

    // Beyond the maximum: false, and the map is left unchanged.
    let last_map = game.level.map.clone();
    assert!(!game.advance_level());
    assert_eq!(game.level.map, last_map);
    assert!(!game.advance_level());
    assert_eq!(game.level.map, last_map);
}
