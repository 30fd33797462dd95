use vstd::prelude::*;

verus! {

/// The category of a room, which decides where the layout may place it.
#[derive(Debug, Clone, Copy, PartialEq, Eq, Hash, Structural)]
pub enum RoomType {
    Combat,
    Treasure,
    Central,
    Rest,
    Spawn,
    Town,
}

impl RoomType {
    /// The weight of this category when a dungeon draws a room type.
    pub open spec fn spec_dungeon_weight(self) -> u32 {
        match self {
            RoomType::Combat => 40,
            RoomType::Treasure => 15,
            RoomType::Rest => 12,
            RoomType::Spawn => 10,
            _ => 0,
        }
    }

    pub fn default_dungeon_weight(&self) -> (r: u32)
        ensures
            r == self.spec_dungeon_weight(),
    {
        match self {
            RoomType::Combat => 40,
            RoomType::Treasure => 15,
            RoomType::Rest => 12,
            RoomType::Spawn => 10,
            _ => 0,
        }
    }
}

/// An authored room blueprint.
///
/// Glyphs of `template`: `#` wall, `.` floor, `D` door, `C` connector (a wall
/// until joined to a neighbour), `S` spawn marker (a floor), `T` special floor,
/// space wall. Every row has the same length.
#[derive(Debug, Clone, Copy)]
pub struct RoomTemplate {
    pub name: &'static str,
    pub room_type: RoomType,
    pub weight: u32,
    pub template: &'static str,
    pub is_central: bool,
}

/// Pattern of the `basic_room` template.
pub const BASIC_ROOM_PATTERN: &'static str = "
#########CC#########
#..................#
#..................#
#..................#
#..................#
#......S...........#
#..................#
#..................#
C..................C
C..................C
#..................#
#..................#
#......S...........#
#..................#
#..................#
#..................#
#..................#
#..................#
#..................#
#########CC#########";

/// Pattern of the `divided_room` template.
pub const DIVIDED_ROOM_PATTERN: &'static str = "
#########CC#########
#..................#
#..................#
#..................#
#########DD#########
#......#...........#
#......#...........#
#......#...........#
C......#...........C
C......#...........C
###D##########D#####
#..................#
#..................#
#..................#
#..................#
#..................#
#..................#
#..................#
#..................#
#########CC#########";

/// Pattern of the `combat_chamber` template.
pub const COMBAT_CHAMBER_PATTERN: &'static str = "
#########CC#########
#..................#
#..................#
#.....######.......#
#.....#....#.......#
#.....#....#.......#
#.....#....#.......#
#.....######.......#
C..................C
C..................C
#..................#
#.....######.......#
#.....#....#.......#
#.....#....#.......#
#.....#....#.......#
#.....######.......#
#..................#
#..................#
#..................#
#########CC#########";

/// Pattern of the `treasure_vault` template.
pub const TREASURE_VAULT_PATTERN: &'static str = "
#########CC#########
#..................#
#..................#
#.....########.....#
#.....#......#.....#
#.....#......#.....#
#.....#......#.....#
#.....#......#.....#
C.....D......D.....C
C.....D......D.....C
#.....#......#.....#
#.....#......#.....#
#.....#......#.....#
#.....#......#.....#
#.....########.....#
#..................#
#..................#
#..................#
#..................#
#########CC#########";

/// Pattern of the `spawn_room_basic` template.
pub const SPAWN_ROOM_BASIC_PATTERN: &'static str = "
#########CC#########
#..................#
#..................#
#..................#
#..................#
#.....S.......S....#
#..................#
#..................#
C..................C
C..................C
#..................#
#..................#
#.....S.......S....#
#..................#
#..................#
#..................#
#..................#
#..................#
#..................#
#########CC#########";

/// Pattern of the `spawn_room_safe` template.
pub const SPAWN_ROOM_SAFE_PATTERN: &'static str = "
#########CC#########
#..................#
#..................#
#....##########....#
#....#........#....#
#....#....S...#....#
#....#........#....#
#....#........#....#
C....#........#....C
C....#........#....C
#....#........#....#
#....#........#....#
#....#....S...#....#
#....#........#....#
#....##########....#
#..................#
#..................#
#..................#
#..................#
#########CC#########";

/// Pattern of the `spawn_room_entrance` template.
pub const SPAWN_ROOM_ENTRANCE_PATTERN: &'static str = "
#########CC#########
#..................#
#..................#
#..................#
#......######......#
#......#....#......#
#......#.S..#......#
#......#....#......#
C......D....D......C
C......D....D......C
#......#....#......#
#......#..S.#......#
#......#....#......#
#......######......#
#..................#
#..................#
#..................#
#..................#
#..................#
#########CC#########";

/// Pattern of the `spawn_room_outpost` template.
pub const SPAWN_ROOM_OUTPOST_PATTERN: &'static str = "
#########CC#########
#..................#
#...###........###.#
#...#..........#..#
#...#....S.....#..#
#..................#
#..................#
#.........S........#
C..................C
C..................C
#.........S........#
#..................#
#..................#
#...#....S.....#..#
#...#..........#..#
#...###........###.#
#..................#
#..................#
#..................#
#########CC#########";

/// Pattern of the `central_hall` template.
pub const CENTRAL_HALL_PATTERN: &'static str = "
#########CC#################CC#########
#.....................................#
#.....................................#
#.....................................#
#.....................................#
#.....................................#
#.....................................#
#.....................................#
C.......#.....................#.......C
C.....................................C
#.....................................#
#.....................................#
#..................#..................#
#.....................................#
#.....................................#
#.....................................#
#.....................................#
#.....................................#
#.....................................#
#...........#.............#...........#
#.....................................#
#.....................................#
#.....................................#
#.....................................#
#.....................................#
#.....................................#
#..................#..................#
C.....................................C
C.....................................C
#.....................................#
#.......#.....................#.......#
#.....................................#
#.....................................#
#.....................................#
#.....................................#
#.....................................#
#.....................................#
#.....................................#
#########CC#################CC#########";

/// Pattern of the `central_chamber` template.
pub const CENTRAL_CHAMBER_PATTERN: &'static str = "
#########CC#################CC#########
#.....................................#
#.....................................#
#.....................................#
#.....................................#
#.....................................#
#.....................................#
#.....................................#
C.....................................C
C.....................................C
#.....................................#
#.....................................#
#...........#######D#######...........#
#...........#.............#...........#
#...........#.............#...........#
#...........#.............#...........#
#...........#.............#...........#
#...........#.............#...........#
#...........#.............#...........#
#...........D.............D...........#
#...........#.............#...........#
#...........#.............#...........#
#...........#.............#...........#
#...........#.............#...........#
#...........#.............#...........#
#...........#.............#...........#
#...........#######D#######...........#
C.....................................C
C.....................................C
#.....................................#
#.....................................#
#.....................................#
#.....................................#
#.....................................#
#.....................................#
#.....................................#
#.....................................#
#.....................................#
#########CC#################CC#########";

/// Pattern of the `central_courtyard` template.
pub const CENTRAL_COURTYARD_PATTERN: &'static str = "
#########CC#################CC#########
#.....................................#
#.....................................#
#.....................................#
#...#.....#.....#.....#.....#.....#...#
#.....................................#
#.....................................#
#.....................................#
C.....................................C
C.....................................C
#...#.....#.....#.....#.....#.....#...#
#.....................................#
#.....................................#
#.....................................#
#.....................................#
#.....................................#
#...#.....#.................#.....#...#
#.....................................#
#.....................................#
#.....................................#
#.....................................#
#.....................................#
#...#.....#.................#.....#...#
#.....................................#
#.....................................#
#.....................................#
#.....................................#
C.....................................C
C...#.....#.....#.....#.....#.....#...C
#.....................................#
#.....................................#
#.....................................#
#.....................................#
#.....................................#
#...#.....#.....#.....#.....#.....#...#
#.....................................#
#.....................................#
#.....................................#
#########CC#################CC#########";

/// Pattern of the `central_throne_room` template.
pub const CENTRAL_THRONE_ROOM_PATTERN: &'static str = "
#########CC#################CC#########
#.....................................#
#.....................................#
#.....................................#
#.............###########.............#
#.............#.........#.............#
#.............#.........#.............#
#.............#....T....#.............#
C.............#.........#.............C
C.............#.........#.............C
#.............#.........#.............#
#.............#.........#.............#
#.............#####DD####.............#
#.....................................#
#.....................................#
#.....................................#
#.........#.................#.........#
#.....................................#
#.....................................#
#.....................................#
#.........#.................#.........#
#.....................................#
#.....................................#
#.....................................#
#.........#.................#.........#
#.....................................#
#.....................................#
C.....................................C
C.........#.................#.........C
#.....................................#
#.....................................#
#.....................................#
#.........#.................#.........#
#.....................................#
#.....................................#
#.....................................#
#.....................................#
#.....................................#
#########CC#################CC#########";

/// Pattern of the `central_great_hall` template.
pub const CENTRAL_GREAT_HALL_PATTERN: &'static str = "
#########CC#################CC#########
#.....................................#
#.....................................#
#.....................................#
#.....................................#
#.....................................#
#.....#############DD############.....#
#.....#.........................#.....#
C.....#.........................#.....C
C.....#.........................#.....C
#.....#.........................#.....#
#.....#.........................#.....#
#.....#.........................#.....#
#.....#.........................#.....#
#.....#.........................#.....#
#.....#.........................#.....#
#.....#.........................#.....#
#.....#..........#####..........#.....#
#.....#..........#####..........#.....#
#.....D..........T####..........D.....#
#.....D..........#####..........D.....#
#.....#..........#####..........#.....#
#.....#.........................#.....#
#.....#.........................#.....#
#.....#.........................#.....#
#.....#.........................#.....#
#.....#.........................#.....#
C.....#.........................#.....C
C.....#.........................#.....C
#.....#.........................#.....#
#.....#.........................#.....#
#.....#.........................#.....#
#.....#############DD############.....#
#.....................................#
#.....................................#
#.....................................#
#.....................................#
#.....................................#
#########CC#################CC#########";

/// Pattern of the `town_square` template.
pub const TOWN_SQUARE_PATTERN: &'static str = "
#########CC#########
#..................#
#..................#
#..................#
#...#..........#...#
#..................#
#.....S......S.....#
#..................#
C..................C
C..................C
#..................#
#..................#
#..................#
#.....S......S.....#
#..................#
#...#..........#...#
#..................#
#..................#
#..................#
#########CC#########";

/// Pattern of the `residential` template.
pub const RESIDENTIAL_PATTERN: &'static str = "
#########CC#########
#..................#
#..................#
#..#######.........#
#..#.....#.........#
#..#.....#.........#
#..#.....#.........#
#..#.....#.........#
C..#.....#.........C
C..###D###.........C
#..................#
#..........##D###..#
#..........#....#..#
#..........#....#..#
#..........#....#..#
#..........#....#..#
#..........######..#
#..................#
#..................#
#########CC#########";

/// Pattern of the `blacksmith` template.
pub const BLACKSMITH_PATTERN: &'static str = "
#########CC#########
#..................#
#..................#
#..................#
#...############...#
#...#..........#...#
#...#.##.......#...#
#...#.##.......#...#
C...#..........#...C
C...#..........#...C
#...#..........#...#
#...#####DD#####...#
#..................#
#..................#
#..................#
#..................#
#..................#
#..................#
#..................#
#########CC#########";

/// Pattern of the `market` template.
pub const MARKET_PATTERN: &'static str = "
#########CC#########
#..................#
#..................#
#..................#
#..................#
#...#..#..#..#.....#
#..................#
#..................#
C..................C
C..................C
#..................#
#..................#
#..................#
#..................#
#...#..#..#..#.....#
#..................#
#..................#
#..................#
#..................#
#########CC#########";

/// Pattern of the `general_store` template.
pub const GENERAL_STORE_PATTERN: &'static str = "
#########CC#########
#..................#
#..................#
#..##############..#
#..#............#..#
#..#............#..#
#..#............#..#
#..#............#..#
C..#............#..C
C..#............#..C
#..#............#..#
#..#............#..#
#..######DD######..#
#..................#
#..................#
#..................#
#..................#
#..................#
#..................#
#########CC#########";

/// Pattern of the `town_gate` template.
pub const TOWN_GATE_PATTERN: &'static str = "
#########CC#########
#..#............#..#
#..#............#..#
#..#............#..#
#..#............#..#
#..#............#..#
#..#............#..#
#..#............#..#
C..D............D..C
C..D............D..C
#..#............#..#
#..#............#..#
#..#............#..#
#..#............#..#
#..#............#..#
#..#............#..#
#..#............#..#
#..#............#..#
#..#............#..#
#########CC#########";

/// Pattern of the `tavern` template.
pub const TAVERN_PATTERN: &'static str = "
#########CC#########
#..................#
#.################.#
#.#..............#.#
#.#..............#.#
#.#...########...#.#
#.#..............#.#
#.#..............#.#
C.#..............#.C
C.#..............#.C
#.#..............#.#
#.#..............#.#
#.#######DD#######.#
#..................#
#..................#
#..................#
#..................#
#..................#
#..................#
#########CC#########";

/// The dungeon catalog: ordinary rooms, spawn rooms and central rooms.
pub open spec fn dungeon_catalog() -> Seq<RoomTemplate> {
    seq![
        RoomTemplate {
            name: "basic_room",
            room_type: RoomType::Spawn,
            weight: 5,
            is_central: false,
            template: BASIC_ROOM_PATTERN,
        },
        RoomTemplate {
            name: "divided_room",
            room_type: RoomType::Rest,
            weight: 5,
            is_central: false,
            template: DIVIDED_ROOM_PATTERN,
        },
        RoomTemplate {
            name: "combat_chamber",
            room_type: RoomType::Combat,
            weight: 8,
            is_central: false,
            template: COMBAT_CHAMBER_PATTERN,
        },
        RoomTemplate {
            name: "treasure_vault",
            room_type: RoomType::Treasure,
            weight: 3,
            is_central: false,
            template: TREASURE_VAULT_PATTERN,
        },
        RoomTemplate {
            name: "spawn_room_basic",
            room_type: RoomType::Spawn,
            weight: 8,
            is_central: false,
            template: SPAWN_ROOM_BASIC_PATTERN,
        },
        RoomTemplate {
            name: "spawn_room_safe",
            room_type: RoomType::Spawn,
            weight: 6,
            is_central: false,
            template: SPAWN_ROOM_SAFE_PATTERN,
        },
        RoomTemplate {
            name: "spawn_room_entrance",
            room_type: RoomType::Spawn,
            weight: 10,
            is_central: false,
            template: SPAWN_ROOM_ENTRANCE_PATTERN,
        },
        RoomTemplate {
            name: "spawn_room_outpost",
            room_type: RoomType::Spawn,
            weight: 7,
            is_central: false,
            template: SPAWN_ROOM_OUTPOST_PATTERN,
        },
        RoomTemplate {
            name: "central_hall",
            room_type: RoomType::Central,
            weight: 10,
            is_central: true,
            template: CENTRAL_HALL_PATTERN,
        },
        RoomTemplate {
            name: "central_chamber",
            room_type: RoomType::Central,
            weight: 8,
            is_central: true,
            template: CENTRAL_CHAMBER_PATTERN,
        },
        RoomTemplate {
            name: "central_courtyard",
            room_type: RoomType::Central,
            weight: 6,
            is_central: true,
            template: CENTRAL_COURTYARD_PATTERN,
        },
        RoomTemplate {
            name: "central_throne_room",
            room_type: RoomType::Central,
            weight: 4,
            is_central: true,
            template: CENTRAL_THRONE_ROOM_PATTERN,
        },
        RoomTemplate {
            name: "central_great_hall",
            room_type: RoomType::Central,
            weight: 5,
            is_central: true,
            template: CENTRAL_GREAT_HALL_PATTERN,
        },
    ]
}

/// The town catalog: the town square and the buildings around it.
pub open spec fn town_catalog() -> Seq<RoomTemplate> {
    seq![
        RoomTemplate {
            name: "town_square",
            room_type: RoomType::Town,
            weight: 1,
            is_central: true,
            template: TOWN_SQUARE_PATTERN,
        },
        RoomTemplate {
            name: "residential",
            room_type: RoomType::Town,
            weight: 6,
            is_central: false,
            template: RESIDENTIAL_PATTERN,
        },
        RoomTemplate {
            name: "blacksmith",
            room_type: RoomType::Town,
            weight: 3,
            is_central: false,
            template: BLACKSMITH_PATTERN,
        },
        RoomTemplate {
            name: "market",
            room_type: RoomType::Town,
            weight: 4,
            is_central: false,
            template: MARKET_PATTERN,
        },
        RoomTemplate {
            name: "general_store",
            room_type: RoomType::Town,
            weight: 3,
            is_central: false,
            template: GENERAL_STORE_PATTERN,
        },
        RoomTemplate {
            name: "town_gate",
            room_type: RoomType::Town,
            weight: 2,
            is_central: false,
            template: TOWN_GATE_PATTERN,
        },
        RoomTemplate {
            name: "tavern",
            room_type: RoomType::Town,
            weight: 3,
            is_central: false,
            template: TAVERN_PATTERN,
        },
    ]
}

/// The dungeon catalog (see `dungeon_catalog`).
pub fn dungeon_templates() -> (r: Vec<RoomTemplate>)
    ensures
        r@ == dungeon_catalog(),
{
    let r = vec![
        RoomTemplate {
            name: "basic_room",
            room_type: RoomType::Spawn,
            weight: 5,
            is_central: false,
            template: BASIC_ROOM_PATTERN,
        },
        RoomTemplate {
            name: "divided_room",
            room_type: RoomType::Rest,
            weight: 5,
            is_central: false,
            template: DIVIDED_ROOM_PATTERN,
        },
        RoomTemplate {
            name: "combat_chamber",
            room_type: RoomType::Combat,
            weight: 8,
            is_central: false,
            template: COMBAT_CHAMBER_PATTERN,
        },
        RoomTemplate {
            name: "treasure_vault",
            room_type: RoomType::Treasure,
            weight: 3,
            is_central: false,
            template: TREASURE_VAULT_PATTERN,
        },
        RoomTemplate {
            name: "spawn_room_basic",
            room_type: RoomType::Spawn,
            weight: 8,
            is_central: false,
            template: SPAWN_ROOM_BASIC_PATTERN,
        },
        RoomTemplate {
            name: "spawn_room_safe",
            room_type: RoomType::Spawn,
            weight: 6,
            is_central: false,
            template: SPAWN_ROOM_SAFE_PATTERN,
        },
        RoomTemplate {
            name: "spawn_room_entrance",
            room_type: RoomType::Spawn,
            weight: 10,
            is_central: false,
            template: SPAWN_ROOM_ENTRANCE_PATTERN,
        },
        RoomTemplate {
            name: "spawn_room_outpost",
            room_type: RoomType::Spawn,
            weight: 7,
            is_central: false,
            template: SPAWN_ROOM_OUTPOST_PATTERN,
        },
        RoomTemplate {
            name: "central_hall",
            room_type: RoomType::Central,
            weight: 10,
            is_central: true,
            template: CENTRAL_HALL_PATTERN,
        },
        RoomTemplate {
            name: "central_chamber",
            room_type: RoomType::Central,
            weight: 8,
            is_central: true,
            template: CENTRAL_CHAMBER_PATTERN,
        },
        RoomTemplate {
            name: "central_courtyard",
            room_type: RoomType::Central,
            weight: 6,
            is_central: true,
            template: CENTRAL_COURTYARD_PATTERN,
        },
        RoomTemplate {
            name: "central_throne_room",
            room_type: RoomType::Central,
            weight: 4,
            is_central: true,
            template: CENTRAL_THRONE_ROOM_PATTERN,
        },
        RoomTemplate {
            name: "central_great_hall",
            room_type: RoomType::Central,
            weight: 5,
            is_central: true,
            template: CENTRAL_GREAT_HALL_PATTERN,
        },
    ];
    assert(r@ =~= dungeon_catalog());
    r
}

/// The town catalog (see `town_catalog`).
pub fn town_templates() -> (r: Vec<RoomTemplate>)
    ensures
        r@ == town_catalog(),
{
    let r = vec![
        RoomTemplate {
            name: "town_square",
            room_type: RoomType::Town,
            weight: 1,
            is_central: true,
            template: TOWN_SQUARE_PATTERN,
        },
        RoomTemplate {
            name: "residential",
            room_type: RoomType::Town,
            weight: 6,
            is_central: false,
            template: RESIDENTIAL_PATTERN,
        },
        RoomTemplate {
            name: "blacksmith",
            room_type: RoomType::Town,
            weight: 3,
            is_central: false,
            template: BLACKSMITH_PATTERN,
        },
        RoomTemplate {
            name: "market",
            room_type: RoomType::Town,
            weight: 4,
            is_central: false,
            template: MARKET_PATTERN,
        },
        RoomTemplate {
            name: "general_store",
            room_type: RoomType::Town,
            weight: 3,
            is_central: false,
            template: GENERAL_STORE_PATTERN,
        },
        RoomTemplate {
            name: "town_gate",
            room_type: RoomType::Town,
            weight: 2,
            is_central: false,
            template: TOWN_GATE_PATTERN,
        },
        RoomTemplate {
            name: "tavern",
            room_type: RoomType::Town,
            weight: 3,
            is_central: false,
            template: TAVERN_PATTERN,
        },
    ];
    assert(r@ =~= town_catalog());
    r
}

} // verus!
