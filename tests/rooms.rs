use game_module::spawn::extract_spawn_points;
use game_module::town::building_for;
use game_module::GenerationError;
use spacetimedb::rand::rngs::StdRng;
use spacetimedb::rand::SeedableRng;
use game_module::manager::pick_weighted;
use game_module::parser::parse_template;
use game_module::template::{dungeon_templates, town_templates};
use game_module::{
    Position, Room, RoomManager, RoomUtils, RoomTemplate, RoomType, RoomTypeWeights, TemplateError, TileType,
};

#[test]
fn mod_test_room_connections() {
    let room = Room::new(10, 10, 25, 25, false);
    let _connections = room.get_global_connections();
    assert!(room.width >= 20);
    assert!(room.height >= 20);
}

#[test]
fn mod_test_minimum_room_size_enforcement() {
    let small_room = Room::new(0, 0, 5, 10, false);
    assert_eq!(small_room.width, 20);
    assert_eq!(small_room.height, 20);

    let adequate_room = Room::new(0, 0, 25, 30, false);
    assert_eq!(adequate_room.width, 25);
    assert_eq!(adequate_room.height, 30);
}

#[test]
fn test_room_connections() {
    let room = Room::new(10, 10, 25, 25, false);
    let _connections = room.get_global_connections();
    assert!(room.width >= 20);
    assert!(room.height >= 20);
}

#[test]
fn test_minimum_room_size_enforcement() {
    let small_room = Room::new(0, 0, 5, 10, false);
    assert_eq!(small_room.width, 20);
    assert_eq!(small_room.height, 20);

    let adequate_room = Room::new(0, 0, 25, 30, false);
    assert_eq!(adequate_room.width, 25);
    assert_eq!(adequate_room.height, 30);
}

#[test]
fn utility_rooms_match_procedural_rooms() {
    let a = RoomUtils::create_room(4, 6, 10, 30, true);
    assert_eq!((a.width, a.height), (20, 30));
    assert!(a.is_central);
    assert_eq!(a.room_type, RoomType::Central);
    assert!(a.spawn_points.is_empty());
}

#[test]
fn test_town_templates() {
    for template in town_templates() {
        let room_manager = RoomManager::new();
        let parsed_result = RoomManager::parse_room_template(&template);
        assert!(parsed_result.is_ok(), "Town template '{}' should be parseable", template.name);
        let parsed = parsed_result.unwrap();
        assert!(!parsed.name.is_empty(), "Template should have a name");
        assert!(parsed.width > 0, "Template should have valid width");
        assert!(parsed.height > 0, "Template should have valid height");
        assert!(!parsed.tiles.is_empty(), "Template should have tiles");
        let room_result = room_manager.create_room_from_template(&template, 0, 0);
        assert!(
            room_result.is_ok(),
            "Should be able to create room from template '{}'",
            template.name
        );
    }
}

#[test]
fn blank_room_layout() {
    let room = Room::new(3, 4, 20, 20, false);
    assert_eq!(room.tiles[0][0], TileType::Wall);
    assert_eq!(room.tiles[1][1], TileType::Floor);
    assert_eq!(room.tiles[19][10], TileType::Wall);
    assert_eq!(
        room.connections,
        vec![
            Position { x: 10, y: 0 },
            Position { x: 10, y: 19 },
            Position { x: 0, y: 10 },
            Position { x: 19, y: 10 }
        ]
    );
    let global = room.get_global_connections();
    assert_eq!(global[0], Position { x: 13, y: 4 });
    assert_eq!(room.room_type, RoomType::Combat);
    assert!(room.get_template_name().is_none());
}

#[test]
fn blank_central_room_connectors() {
    let room = Room::new(0, 0, 20, 20, true);
    // even columns 2..=18 on top and bottom, even rows 2..=18 left and right
    assert_eq!(room.connections.len(), 9 * 2 + 9 * 2);
    assert_eq!(room.connections[0], Position { x: 2, y: 0 });
    assert_eq!(room.connections[1], Position { x: 2, y: 19 });
    assert_eq!(room.connections[18], Position { x: 0, y: 2 });
    assert_eq!(room.room_type, RoomType::Central);
}

#[test]
fn add_door_turns_connector_into_door() {
    let mut room = Room::new(0, 0, 20, 20, false);
    assert!(room.add_door(2).is_ok());
    assert_eq!(room.tiles[10][0], TileType::Door);
    assert!(room.add_door(4).is_err());
}

#[test]
fn parse_reads_glyphs() {
    let t = RoomTemplate {
        name: "tiny",
        room_type: RoomType::Rest,
        weight: 1,
        template: "\n\n#C#\n.S.\nDT \n\n",
        is_central: false,
    };
    let p = parse_template(&t).unwrap();
    assert_eq!(p.width, 3);
    assert_eq!(p.height, 3);
    assert_eq!(p.name, "tiny");
    assert_eq!(p.connections, vec![Position { x: 1, y: 0 }]);
    assert_eq!(p.spawn_points, vec![Position { x: 1, y: 1 }]);
    assert_eq!(p.tiles[0], vec![TileType::Wall, TileType::Wall, TileType::Wall]);
    assert_eq!(p.tiles[1], vec![TileType::Floor, TileType::Floor, TileType::Floor]);
    assert_eq!(p.tiles[2], vec![TileType::Door, TileType::Floor, TileType::Wall]);
}

#[test]
fn parse_rejects_ragged_template() {
    let outpost = dungeon_templates()
        .into_iter()
        .find(|t| t.name == "spawn_room_outpost")
        .unwrap();
    match RoomManager::parse_room_template(&outpost) {
        Err(TemplateError::RaggedRows { template }) => assert_eq!(template, "spawn_room_outpost"),
        other => panic!("unexpected {:?}", other),
    }
}

#[test]
fn parse_rejects_empty_and_unknown_glyphs() {
    let empty = RoomTemplate {
        name: "empty",
        room_type: RoomType::Rest,
        weight: 1,
        template: "\n   \n\t\n",
        is_central: false,
    };
    assert!(matches!(
        parse_template(&empty),
        Err(TemplateError::Empty { template: "empty" })
    ));
    let odd = RoomTemplate {
        name: "odd",
        room_type: RoomType::Rest,
        weight: 1,
        template: "###\n#x#\n#y#",
        is_central: false,
    };
    assert!(matches!(
        parse_template(&odd),
        Err(TemplateError::InvalidGlyph { glyph: 'x', template: "odd" })
    ));
}

#[test]
fn min_size_instantiation_centres_pattern() {
    let manager = RoomManager::new();
    let basic = *manager.get_template_by_name("basic_room").unwrap();
    let room = manager
        .create_room_from_template_with_min_size(&basic, 5, 7, 26, 24)
        .unwrap();
    assert_eq!(room.width, 26);
    assert_eq!(room.height, 24);
    assert_eq!(room.position, Position { x: 5, y: 7 });
    // offsets are (26 - 20) / 2 = 3 and (24 - 20) / 2 = 2
    assert_eq!(room.connections[0], Position { x: 12, y: 2 });
    assert_eq!(room.spawn_points[0], Position { x: 10, y: 7 });
    assert_eq!(room.tiles[0][0], TileType::Wall);
    assert_eq!(room.tiles[3][4], TileType::Floor);
    assert_eq!(room.get_template_name(), Some("basic_room"));
    let exact = manager.create_room_from_template(&basic, 0, 0).unwrap();
    assert_eq!(exact.width, 20);
    assert_eq!(exact.connections[0], Position { x: 9, y: 0 });
}

#[test]
fn weighted_pick_bands() {
    let w = vec![5u32, 0, 3];
    assert_eq!(pick_weighted(&w, 0), 0);
    assert_eq!(pick_weighted(&w, 4), 0);
    assert_eq!(pick_weighted(&w, 5), 2);
    assert_eq!(pick_weighted(&w, 7), 2);
}

#[test]
fn template_for_draw_follows_weights() {
    let manager = RoomManager::new();
    // central templates weigh 10, 8, 6, 4, 5 in catalog order (indices 8..=12)
    assert_eq!(manager.template_index_for_draw(RoomType::Central, 0), Some(8));
    assert_eq!(manager.template_index_for_draw(RoomType::Central, 10), Some(9));
    assert_eq!(manager.template_index_for_draw(RoomType::Central, 32), Some(12));
    assert_eq!(manager.template_index_for_draw(RoomType::Town, 0), None);
}

#[test]
fn central_room_pinning() {
    let mut manager = RoomManager::new();
    assert!(manager.get_central_room().is_none());
    assert!(manager.set_central_room("central_throne_room").is_ok());
    assert_eq!(manager.get_central_room().unwrap().name, "central_throne_room");
    assert!(manager.set_central_room("basic_room").is_err());
    assert!(manager.set_central_room("no_such_room").is_err());
    assert_eq!(manager.get_central_room().unwrap().name, "central_throne_room");
    manager.clear_central_room();
    assert!(manager.get_central_room().is_none());
}

#[test]
fn weights_choose_catalog() {
    let dungeon = RoomTypeWeights::default_dungeon();
    assert!(dungeon.is_dungeon_weights());
    assert_eq!(dungeon.weights[0], (RoomType::Combat, 40));
    let town = RoomTypeWeights::default_town();
    assert!(!town.is_dungeon_weights());
    assert_eq!(RoomManager::with_weights(town).get_all_templates().len(), 7);
    assert_eq!(RoomManager::with_weights(dungeon).get_all_templates().len(), 13);
    let custom = RoomTypeWeights::custom(vec![(RoomType::Rest, 3)]);
    assert!(custom.is_dungeon_weights());
    assert_eq!(RoomType::Treasure.default_dungeon_weight(), 15);
    assert_eq!(RoomType::Town.default_dungeon_weight(), 0);
    assert_eq!(RoomManager::for_towns().get_all_templates().len(), 7);
}

#[test]
fn catalogs_parse_except_outpost() {
    for t in dungeon_templates() {
        let ok = parse_template(&t).is_ok();
        assert_eq!(ok, t.name != "spawn_room_outpost", "{}", t.name);
    }
}

#[test]
fn rooms_from_named_and_drawn_templates() {

    let manager = RoomManager::new();
    let room = Room::from_template_name(&manager, "combat_chamber", 2, 3).unwrap();
    assert_eq!(room.get_template_name(), Some("combat_chamber"));
    assert_eq!(room.position, Position { x: 2, y: 3 });
    assert!(matches!(
        Room::from_template_name(&manager, "missing", 0, 0),
        Err(GenerationError::TemplateNotFound { .. })
    ));
    assert!(matches!(
        Room::from_template_name(&manager, "spawn_room_outpost", 0, 0),
        Err(GenerationError::TemplateParse(TemplateError::RaggedRows { .. }))
    ));
    let vault = *manager.get_template_by_name("treasure_vault").unwrap();
    let direct = Room::from_template(&manager, &vault, 1, 1).unwrap();
    assert_eq!(direct.room_type, RoomType::Treasure);

    let mut rng = StdRng::seed_from_u64(42);
    for _ in 0..20 {
        if let Ok(central) = Room::random_from_templates(&manager, 0, 0, true, &mut rng) {
            assert_eq!(central.room_type, RoomType::Central);
        }
        if let Ok(plain) = Room::random_from_templates(&manager, 0, 0, false, &mut rng) {
            assert_ne!(plain.room_type, RoomType::Central);
        }
    }
}

#[test]
fn town_plan_repeats() {
    assert_eq!(building_for(0, 0), "residential");
    assert_eq!(building_for(1, 0), "blacksmith");
    assert_eq!(building_for(0, 1), "market");
    assert_eq!(building_for(2, 1), "general_store");
    assert_eq!(building_for(1, 2), "tavern");
    assert_eq!(building_for(4, 1), "residential");
    assert_eq!(building_for(3, 5), "town_gate");
}

#[test]
fn spawn_fallbacks_prefer_floor() {
    use_spawn_fallbacks();
}

fn use_spawn_fallbacks() {
    let rooms: Vec<Room> = Vec::new();
    let mut map = vec![vec![0u8; 8]; 8];
    map[4][6] = 1;
    assert_eq!(
        extract_spawn_points(&rooms, &map, 8, 8),
        vec![Position { x: 6, y: 4 }]
    );
    map[5][2] = 1;
    assert_eq!(
        extract_spawn_points(&rooms, &map, 8, 8),
        vec![Position { x: 2, y: 5 }]
    );
    let walls = vec![vec![0u8; 8]; 8];
    assert_eq!(extract_spawn_points(&rooms, &walls, 8, 8).len(), 4);
}
