use game_module::{
    generate_example_map, is_tile_walkable, run_example, validate_message, validate_name,
    DungeonGenerator, GenerationError, Generator, LevelParams, LevelResult, MapType, Position,
    RoomType, TileType, TownGenerator,
};

fn print_map(map: &[Vec<u8>]) {
    for row in map {
        let line: String = row
            .iter()
            .map(|&cell| match TileType::from(cell) {
                TileType::Wall => '#',
                TileType::Floor => '.',
                TileType::Door => 'D',
            })
            .collect();
        println!("{}", line);
    }
}

fn count_of(level: &LevelResult, t: RoomType) -> usize {
    level
        .metadata
        .room_types
        .iter()
        .find(|(k, _)| *k == t)
        .map(|(_, n)| *n)
        .unwrap()
}

#[test]
fn mod_test_map_generation() {
    let mut generator = DungeonGenerator::new(5, 5, 20, 20, 2, 0);
    let map = generator.generate();
    print_map(&map);
}

#[test]
fn test_edge_rooms_are_spawn_rooms() {
    let mut generator = DungeonGenerator::new(5, 5, 20, 20, 2, 12345);
    generator.generate();

    let grid_width = generator.room_grid[0].len();
    let grid_height = generator.room_grid.len();

    let mut edge_spawn_count = 0;
    let mut total_edge_rooms = 0;
    let mut total_spawn_points_from_all_spawn_rooms = 0;

    for room in &generator.rooms {
        if room.room_type == RoomType::Spawn {
            total_spawn_points_from_all_spawn_rooms += room.spawn_points.len();
        }
    }

    for (room_idx, room) in generator.rooms.iter().enumerate() {
        if room_idx == 0 {
            continue;
        }
        let mut room_grid_pos = None;
        for grid_y in 0..grid_height {
            for grid_x in 0..grid_width {
                if let Some(idx) = generator.room_grid[grid_y][grid_x] {
                    if idx == room_idx {
                        room_grid_pos = Some((grid_x, grid_y));
                        break;
                    }
                }
            }
            if room_grid_pos.is_some() {
                break;
            }
        }
        if let Some((grid_x, grid_y)) = room_grid_pos {
            let is_edge =
                grid_x == 0 || grid_x == grid_width - 1 || grid_y == 0 || grid_y == grid_height - 1;
            if is_edge {
                total_edge_rooms += 1;
                if room.room_type == RoomType::Spawn {
                    edge_spawn_count += 1;
                }
            }
        }
    }

    assert_eq!(
        edge_spawn_count, total_edge_rooms,
        "All edge rooms should be spawn rooms, but only {} out of {} are spawn rooms",
        edge_spawn_count, total_edge_rooms
    );
    assert!(
        total_spawn_points_from_all_spawn_rooms > 0,
        "Spawn rooms should have spawn points marked with 'S'"
    );
    assert_eq!(
        generator.spawn_points.len(),
        total_spawn_points_from_all_spawn_rooms,
        "Generator should have {} spawn points from templates, but has {}",
        total_spawn_points_from_all_spawn_rooms,
        generator.spawn_points.len()
    );
}

#[test]
fn test_town_generation() {
    let mut town_generator = TownGenerator::new(3, 30, 30);
    let map = town_generator.generate();

    assert!(!map.is_empty(), "Town map should not be empty");
    assert!(!map[0].is_empty(), "Town map rows should not be empty");

    let expected_size = 30 + (3 - 1) * (30 - 1);
    assert_eq!(map.len(), expected_size, "Town height should be correct");
    assert_eq!(map[0].len(), expected_size, "Town width should be correct");

    assert!(!town_generator.layout.rooms.is_empty(), "Town should have rooms/areas");
    assert!(
        town_generator.layout.rooms.iter().any(|room| room.is_central),
        "Town should have a central area (town square)"
    );
    assert!(!town_generator.get_spawn_points().is_empty(), "Town should have spawn points");
    assert!(
        town_generator.get_primary_spawn_point().is_some(),
        "Town should have a primary spawn point"
    );
    for spawn_point in town_generator.get_spawn_points() {
        assert!(
            spawn_point.x < town_generator.layout.width,
            "Spawn point x should be within map bounds"
        );
        assert!(
            spawn_point.y < town_generator.layout.height,
            "Spawn point y should be within map bounds"
        );
    }

    let mut has_floor = false;
    let mut has_door = false;
    for row in &map {
        for &tile in row {
            match TileType::from(tile) {
                TileType::Floor => has_floor = true,
                TileType::Door => has_door = true,
                TileType::Wall => {}
            }
        }
    }
    assert!(has_floor, "Town should have walkable floor areas");
    assert!(has_door, "Town should have doors connecting areas");
}

#[test]
fn test_town_spawn_points() {
    let mut town_generator = TownGenerator::new(3, 30, 30);
    let _map = town_generator.generate();

    let spawn_points = town_generator.get_spawn_points();
    assert!(!spawn_points.is_empty(), "Should have spawn points");

    let mut town_generator_mut = TownGenerator::new(3, 30, 30);
    let _map = town_generator_mut.generate();
    let random_spawn = town_generator_mut.get_random_spawn_point();
    assert!(random_spawn.is_some(), "Should be able to get a random spawn point");

    let primary_spawn = town_generator.get_primary_spawn_point();
    assert!(primary_spawn.is_some(), "Should have a primary spawn point");
    if let Some(primary) = primary_spawn {
        assert!(
            primary.x < town_generator.layout.width && primary.y < town_generator.layout.height,
            "Primary spawn point should be within map bounds"
        );
    }
}

#[test]
fn test_town_has_streets() {
    let mut town_generator = TownGenerator::new(3, 30, 30);
    let map = town_generator.generate();

    println!("Testing town streets:");
    print_map(&map);

    let mut street_tiles_found = 0;
    let mut total_samples = 0;
    for y in [15, 44, 73] {
        for x in [15, 44, 73] {
            if y < map.len() && x < map[0].len() {
                total_samples += 1;
                if map[y][x] == TileType::Floor as u8 {
                    street_tiles_found += 1;
                }
            }
        }
    }
    assert!(
        street_tiles_found > 0,
        "Town should have street tiles (floors) between buildings, found {} street tiles out of {} samples",
        street_tiles_found,
        total_samples
    );

    let mut wall_count = 0;
    let mut floor_count = 0;
    let mut door_count = 0;
    for row in &map {
        for &tile in row {
            match TileType::from(tile) {
                TileType::Wall => wall_count += 1,
                TileType::Floor => floor_count += 1,
                TileType::Door => door_count += 1,
            }
        }
    }
    assert!(wall_count > 0, "Town should have walls (building structure)");
    assert!(floor_count > 0, "Town should have floors (streets and interiors)");
    assert!(door_count > 0, "Town should have doors (building entrances)");
}

#[test]
fn dungeon_scenario_three_by_three() {
    let level = Generator::generate_dungeon("D".to_string(), 12345, 3, 3, 20, 20).unwrap();
    assert_eq!(level.width, 58);
    assert_eq!(level.height, 58);
    assert_eq!(level.tiles.len(), 58 * 58);
    assert!(count_of(&level, RoomType::Central) >= 1);
    assert!(count_of(&level, RoomType::Spawn) >= 1);
    assert!(!level.spawn_points.is_empty());
    assert!(level.is_dungeon());
    assert!(!level.is_starting_town());
    assert_eq!(level.name, "D");
    assert_eq!(level.metadata.seed, 12345);
}

#[test]
fn same_seed_same_level() {
    let a = Generator::generate_dungeon("A".to_string(), 777, 4, 3, 20, 22).unwrap();
    let b = Generator::generate_dungeon("A".to_string(), 777, 4, 3, 20, 22).unwrap();
    assert_eq!(a.tiles, b.tiles);
    assert_eq!(a.spawn_points, b.spawn_points);
    assert_eq!(a.spawn_position, b.spawn_position);
    let t1 = Generator::generate_town("T".to_string(), 9, 3, 20, 20, false).unwrap();
    let t2 = Generator::generate_town("T".to_string(), 9, 3, 20, 20, false).unwrap();
    assert_eq!(t1.tiles, t2.tiles);
    assert_eq!(t1.spawn_points, t2.spawn_points);
}

#[test]
fn seed_changes_layout_not_size() {
    let a = Generator::generate_dungeon("S".to_string(), 0, 5, 5, 20, 20).unwrap();
    let b = Generator::generate_dungeon("S".to_string(), 1, 5, 5, 20, 20).unwrap();
    assert_eq!((a.width, a.height), (b.width, b.height));
    let mut distinct = false;
    for seed in 1..8u64 {
        let c = Generator::generate_dungeon("S".to_string(), seed, 5, 5, 20, 20).unwrap();
        assert_eq!((c.width, c.height), (a.width, a.height));
        if c.spawn_position != a.spawn_position || c.tiles != a.tiles {
            distinct = true;
        }
    }
    assert!(distinct);
}

#[test]
fn starting_town_is_marked() {
    let town = Generator::generate_town("Starting Town".to_string(), 42, 3, 20, 20, true).unwrap();
    assert!(town.is_starting_town);
    assert!(town.is_starting_town());
    assert!(town.is_town());
    assert!(town.special_features.iter().any(|f| f == "Starting Town"));
    let plain = Generator::generate_town("Other".to_string(), 42, 3, 20, 20, false).unwrap();
    assert!(!plain.is_starting_town);
    assert!(plain.special_features.is_empty());
}

#[test]
fn tiles_use_three_codes_and_walkability_follows() {
    let level = Generator::generate_dungeon("W".to_string(), 5, 4, 4, 20, 20).unwrap();
    assert!(level.tiles.iter().all(|&t| t <= 2));
    for y in 0..level.height {
        for x in 0..level.width {
            let t = level.tiles[y * level.width + x];
            assert_eq!(level.is_walkable(x, y), t == 1 || t == 2);
            assert_eq!(level.get_tile(x, y), Some(t));
            assert_eq!(
                is_tile_walkable(&level.tiles, x, y, level.width as u64, level.height as u64),
                t == 1 || t == 2
            );
        }
    }
    assert!(!level.is_walkable(level.width, 0));
    assert_eq!(level.get_tile(0, level.height), None);
}

#[test]
fn spawn_position_is_walkable() {
    for seed in 0..5u64 {
        let level = Generator::generate_dungeon("P".to_string(), seed, 4, 4, 20, 20).unwrap();
        assert!(!level.spawn_points.is_empty());
        assert!(level.spawn_points.contains(&level.spawn_position));
        let p = level.spawn_position;
        assert!(level.is_walkable(p.x, p.y));
        for q in &level.spawn_points {
            assert!(level.is_walkable(q.x, q.y));
        }
    }
}

#[test]
fn rooms_respect_size_bounds_and_single_centre() {
    let mut g = DungeonGenerator::new(4, 5, 23, 21, 2, 99);
    g.generate();
    assert_eq!(g.rooms.iter().filter(|r| r.is_central).count(), 1);
    assert!(g.rooms[0].is_central);
    for r in &g.rooms {
        assert!(r.width >= 23 && r.height >= 21);
        assert!(r.position.x + r.width <= g.width);
        assert!(r.position.y + r.height <= g.height);
    }
    assert_eq!(g.rooms.len(), 1 + 4 * 5 - 4);
}

#[test]
fn doors_are_never_alone() {
    let mut g = DungeonGenerator::new(4, 4, 20, 20, 2, 3);
    let map = g.generate();
    let h = map.len();
    let w = map[0].len();
    let mut doors = 0;
    for y in 0..h {
        for x in 0..w {
            if map[y][x] == 2 {
                doors += 1;
                let mut open = false;
                if x > 0 && map[y][x - 1] != 0 {
                    open = true;
                }
                if x + 1 < w && map[y][x + 1] != 0 {
                    open = true;
                }
                if y > 0 && map[y - 1][x] != 0 {
                    open = true;
                }
                if y + 1 < h && map[y + 1][x] != 0 {
                    open = true;
                }
                assert!(open, "door at ({}, {}) stands alone", x, y);
            }
        }
    }
    assert!(doors > 0);
}

#[test]
fn pinned_central_template_is_used() {
    let params = LevelParams::Dungeon {
        rooms_wide: 3,
        rooms_high: 3,
        room_width: 20,
        room_height: 20,
        central_room_multiplier: 2,
        central_room_template: Some("central_throne_room".to_string()),
    };
    let level = Generator::generate(MapType::Dungeon, "Pin".to_string(), 1, params).unwrap();
    assert_eq!(level.width, 58);
    let mut g = DungeonGenerator::new(3, 3, 20, 20, 2, 1);
    assert!(g.set_central_room_template("central_throne_room").is_ok());
    assert!(g.set_central_room_template("nowhere").is_err());
    assert_eq!(g.get_central_room_template().unwrap().name, "central_throne_room");
    g.generate();
    assert_eq!(g.rooms[0].get_template_name(), Some("central_throne_room"));
    assert_eq!(g.rooms[0].width, 39);
    assert_eq!(g.get_central_room_position(), Some(Position { x: 19, y: 19 }));
}

#[test]
fn missing_pinned_template_gives_blank_centre() {
    let params = LevelParams::Dungeon {
        rooms_wide: 3,
        rooms_high: 3,
        room_width: 20,
        room_height: 20,
        central_room_multiplier: 2,
        central_room_template: Some("nowhere".to_string()),
    };
    assert!(Generator::generate(MapType::Dungeon, "Blank".to_string(), 1, params).is_ok());
}

#[test]
fn unsupported_requests_fail() {
    let town_params = LevelParams::Town {
        grid_size: 3,
        room_width: 20,
        room_height: 20,
        is_starting_town: false,
    };
    assert!(matches!(
        Generator::generate(MapType::Wilderness, "W".to_string(), 1, town_params.clone()),
        Err(GenerationError::GenerationFailure { .. })
    ));
    assert!(matches!(
        Generator::generate(MapType::Instance, "I".to_string(), 1, town_params.clone()),
        Err(GenerationError::GenerationFailure { .. })
    ));
    assert!(matches!(
        Generator::generate(MapType::Dungeon, "X".to_string(), 1, town_params),
        Err(GenerationError::InvalidParameters { .. })
    ));
    assert!(matches!(
        Generator::generate_dungeon("Z".to_string(), 1, 0, 3, 20, 20),
        Err(GenerationError::InvalidParameters { .. })
    ));
    assert!(matches!(
        Generator::generate_dungeon("Big".to_string(), 1, usize::MAX / 2, 3, 20, 20),
        Err(GenerationError::InvalidParameters { .. })
    ));
    assert!(Generator::generate_dungeon("One".to_string(), 1, 1, 1, 20, 20).is_ok());
}

#[test]
fn spawn_helpers_on_level() {
    let level = Generator::generate_dungeon("H".to_string(), 11, 3, 3, 20, 20).unwrap();
    let n = level.spawn_points.len();
    let expected = ((1664525u64 * 7 + 1013904223) % 4294967296) as usize % n;
    assert_eq!(level.get_random_spawn_point(7), Some(level.spawn_points[expected]));
    let near = level.get_spawn_positions_near_primary();
    assert!(!near.is_empty());
    for p in &near {
        assert!(level.is_walkable(p.x, p.y));
    }
    assert_eq!(level.get_spawn_positions().len(), n);
}

#[test]
fn generator_spawn_queries() {
    let mut g = DungeonGenerator::new(3, 3, 20, 20, 1, 4);
    g.generate();
    let best = g.get_best_spawn_point().unwrap();
    assert!(g.get_spawn_points().contains(&best));
    let drawn = g.get_random_spawn_point().unwrap();
    assert!(g.spawn_points.contains(&drawn));
    let room_centre = g.get_spawn_room().unwrap();
    assert!(room_centre.x < g.width && room_centre.y < g.height);
    assert_eq!(g.get_central_room_position(), Some(Position { x: 38, y: 38 }));
}

#[test]
fn examples_find_spawn_and_centre() {
    let (spawn, center) = generate_example_map();
    assert!(spawn.is_some());
    assert_eq!(center, Some(Position { x: 19, y: 19 }));
    let (spawn0, center0) = run_example();
    assert!(spawn0.is_some());
    assert_eq!(center0, Some(Position { x: 19, y: 19 }));
}

#[test]
fn names_and_messages_must_not_be_empty() {
    assert_eq!(validate_name("Ann".to_string()), Ok("Ann".to_string()));
    assert!(validate_name(String::new()).is_err());
    assert_eq!(validate_message("hi".to_string()), Ok("hi".to_string()));
    assert!(validate_message(String::new()).is_err());
}

#[test]
fn clearing_the_pin_restores_random_choice() {
    let mut g = DungeonGenerator::new(3, 3, 20, 20, 2, 8);
    assert!(g.set_central_room_template("central_hall").is_ok());
    g.clear_central_room_template();
    assert!(g.get_central_room_template().is_none());
    g.generate();
    assert!(g.rooms[0].is_central);
    assert_eq!(g.rooms[0].room_type, RoomType::Central);
}

#[test]
fn entities_join_and_leave_a_level() {
    let mut level = Generator::generate_town("E".to_string(), 3, 2, 20, 20, false).unwrap();
    assert!(level.get_entities().is_empty());
    level.add_entity(7);
    level.add_entity(9);
    level.add_entity(7);
    assert_eq!(level.get_entities(), &vec![7, 9]);
    level.remove_entity(7);
    assert_eq!(level.get_entities(), &vec![9]);
    level.remove_entity(42);
    assert_eq!(level.get_entities(), &vec![9]);
}

#[test]
fn canvases_wider_than_four_thousand_tiles_are_fine() {
    let level = Generator::generate_dungeon("Wide".to_string(), 1, 220, 2, 20, 20).unwrap();
    assert_eq!(level.width, 20 + 219 * 19);
    assert_eq!(level.height, 39);
    assert_eq!(level.tiles.len(), level.width * level.height);
    assert!(level.is_walkable(level.spawn_position.x, level.spawn_position.y));
}

#[test]
fn grid_names_the_room_in_each_cell() {
    let mut g = DungeonGenerator::new(5, 4, 20, 20, 2, 21);
    g.generate();
    for gy in 0..4 {
        for gx in 0..5 {
            let i = g.room_grid[gy][gx].unwrap();
            let central = (1..3).contains(&gx) && (1..3).contains(&gy);
            if central {
                assert_eq!(i, 0);
            } else {
                assert_eq!(g.rooms[i].position, Position { x: gx * 19, y: gy * 19 });
                assert!(!g.rooms[i].is_central);
            }
        }
    }
}
