use vstd::prelude::*;

verus! {

/// One cell of a room or of the level canvas.
#[derive(Debug, Clone, Copy, PartialEq, Eq, Structural)]
pub enum TileType {
    Wall,
    Floor,
    Door,
}

/// Code of a wall tile in a flattened level.
pub const WALL_CODE: u8 = 0;

/// Code of a floor tile in a flattened level.
pub const FLOOR_CODE: u8 = 1;

/// Code of a door tile in a flattened level.
pub const DOOR_CODE: u8 = 2;

impl TileType {
    /// The stable storage code of a tile: 0 wall, 1 floor, 2 door.
    pub open spec fn code(self) -> u8 {
        match self {
            TileType::Wall => WALL_CODE,
            TileType::Floor => FLOOR_CODE,
            TileType::Door => DOOR_CODE,
        }
    }

    /// The tile that a storage code stands for; unknown codes read as wall.
    pub open spec fn of_code(c: u8) -> TileType {
        if c == FLOOR_CODE {
            TileType::Floor
        } else if c == DOOR_CODE {
            TileType::Door
        } else {
            TileType::Wall
        }
    }

    pub fn to_code(&self) -> (r: u8)
        ensures
            r == self.code(),
            r <= 2,
    {
        match self {
            TileType::Wall => WALL_CODE,
            TileType::Floor => FLOOR_CODE,
            TileType::Door => DOOR_CODE,
        }
    }

    pub fn from_code(c: u8) -> (r: TileType)
        ensures
            r == TileType::of_code(c),
    {
        if c == FLOOR_CODE {
            TileType::Floor
        } else if c == DOOR_CODE {
            TileType::Door
        } else {
            TileType::Wall
        }
    }
}

impl From<u8> for TileType {
    fn from(value: u8) -> (r: TileType) {
        TileType::from_code(value)
    }
}

impl vstd::std_specs::convert::FromSpecImpl<u8> for TileType {
    open spec fn obeys_from_spec() -> bool {
        true
    }

    open spec fn from_spec(v: u8) -> TileType {
        TileType::of_code(v)
    }
}

/// A tile code that a player may stand on: floor or door.
pub open spec fn walkable_code(c: u8) -> bool {
    c == FLOOR_CODE || c == DOOR_CODE
}

/// A grid coordinate, in room-local or canvas-global space.
#[derive(Debug, Clone, Copy, PartialEq, Eq, Hash, Structural)]
pub struct Position {
    pub x: usize,
    pub y: usize,
}

/// Two positions one step apart along exactly one axis.
pub open spec fn orthogonally_adjacent(a: Position, b: Position) -> bool {
    let dx = a.x as int - b.x as int;
    let dy = a.y as int - b.y as int;
    (dy == 0 && (dx == 1 || dx == -1)) || (dx == 0 && (dy == 1 || dy == -1))
}

pub fn is_adjacent(a: Position, b: Position) -> (r: bool)
    ensures
        r == orthogonally_adjacent(a, b),
{
    (a.y == b.y && ((a.x < usize::MAX && a.x + 1 == b.x) || (b.x < usize::MAX && b.x + 1 == a.x)))
        || (a.x == b.x && ((a.y < usize::MAX && a.y + 1 == b.y) || (b.y < usize::MAX && b.y + 1
        == a.y)))
}

/// Whether (x, y) lies on a walkable tile of a flattened `width` x `height` grid.
pub open spec fn walkable_at(tiles: Seq<u8>, x: int, y: int, width: int, height: int) -> bool {
    &&& 0 <= x < width
    &&& 0 <= y < height
    &&& 0 <= y * width + x < tiles.len()
    &&& walkable_code(tiles[y * width + x])
}

/// Movement check on a flattened tile array: in bounds and floor or door.
pub fn is_tile_walkable(tiles: &[u8], x: usize, y: usize, width: u64, height: u64) -> (r: bool)
    ensures
        r == walkable_at(tiles@, x as int, y as int, width as int, height as int),
{
    if x as u64 >= width || y as u64 >= height {
        return false;
    }
    proof {
        assert(y as int * width as int + x as int <= u128::MAX as int) by (nonlinear_arith)
            requires
                y as int <= u64::MAX as int,
                width as int <= u64::MAX as int,
                x as int <= u64::MAX as int,
        ;
    }
    let wide: u128 = y as u128 * width as u128 + x as u128;
    if wide >= tiles.len() as u128 {
        return false;
    }
    let index = wide as usize;
    let c = tiles[index];
    c == FLOOR_CODE || c == DOOR_CODE
}

} // verus!
