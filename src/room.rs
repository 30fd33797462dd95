use vstd::prelude::*;

use crate::parser::{grid_shape, ParsedRoom};
use crate::template::RoomType;
use crate::tile::{Position, TileType};

verus! {

/// The smallest side a room may have.
pub const MIN_ROOM_SIDE: usize = 20;

pub open spec fn max_side(a: int, b: int) -> int {
    if a >= b {
        a
    } else {
        b
    }
}

pub open spec fn pos(x: int, y: int) -> Position {
    Position { x: x as usize, y: y as usize }
}

/// Every position lies inside a `width` x `height` rectangle.
pub open spec fn all_within(ps: Seq<Position>, width: int, height: int) -> bool {
    forall|i: int| 0 <= i < ps.len() ==> (#[trigger] ps[i]).x < width && ps[i].y < height
}

/// Positions moved by an offset.
pub open spec fn shifted(ps: Seq<Position>, dx: int, dy: int) -> Seq<Position> {
    Seq::new(ps.len(), |i: int| pos(ps[i].x + dx, ps[i].y + dy))
}

/// The tile of a procedural room: walls around, floor inside.
pub open spec fn blank_tile(width: int, height: int, x: int, y: int) -> TileType {
    if x == 0 || y == 0 || x == width - 1 || y == height - 1 {
        TileType::Wall
    } else {
        TileType::Floor
    }
}

/// Connectors at the even columns `2, 4, ..` below `n`, on the top and bottom walls.
pub open spec fn column_marks(height: int, n: int) -> Seq<Position>
    decreases n,
{
    if n <= 1 {
        Seq::empty()
    } else {
        let pre = column_marks(height, n - 1);
        if (n - 1) % 2 == 0 {
            pre.push(pos(n - 1, 0)).push(pos(n - 1, height - 1))
        } else {
            pre
        }
    }
}

/// Connectors at the even rows `2, 4, ..` below `n`, on the left and right walls.
pub open spec fn row_marks_lr(width: int, n: int) -> Seq<Position>
    decreases n,
{
    if n <= 1 {
        Seq::empty()
    } else {
        let pre = row_marks_lr(width, n - 1);
        if (n - 1) % 2 == 0 {
            pre.push(pos(0, n - 1)).push(pos(width - 1, n - 1))
        } else {
            pre
        }
    }
}

/// The connectors of a procedural room: the middle of each wall, or every
/// second wall cell for a central room.
pub open spec fn blank_connections(width: int, height: int, central: bool) -> Seq<Position> {
    if central {
        column_marks(height, width - 1) + row_marks_lr(width, height - 1)
    } else {
        seq![
            pos(width / 2, 0),
            pos(width / 2, height - 1),
            pos(0, height / 2),
            pos(width - 1, height / 2),
        ]
    }
}

/// A room placed on the canvas.
#[derive(Debug, Clone)]
pub struct Room {
    pub position: Position,
    pub width: usize,
    pub height: usize,
    pub tiles: Vec<Vec<TileType>>,
    /// Connector cells, relative to the room.
    pub connections: Vec<Position>,
    /// Spawn-marker cells, relative to the room.
    pub spawn_points: Vec<Position>,
    pub is_central: bool,
    pub room_type: RoomType,
    pub template_name: Option<String>,
}

impl Room {
    /// The tile grid matches the size, and connectors and markers lie inside it.
    pub open spec fn wf(&self) -> bool {
        &&& self.width >= 1
        &&& self.height >= 1
        &&& grid_shape(self.tiles@, self.width as int, self.height as int)
        &&& all_within(self.connections@, self.width as int, self.height as int)
        &&& all_within(self.spawn_points@, self.width as int, self.height as int)
    }

    pub open spec fn tile(&self, x: int, y: int) -> TileType {
        self.tiles@[y]@[x]
    }

    /// Connector cells on the canvas.
    pub open spec fn global_connections(&self) -> Seq<Position> {
        shifted(self.connections@, self.position.x as int, self.position.y as int)
    }

    /// Spawn-marker cells on the canvas.
    pub open spec fn global_spawn_points(&self) -> Seq<Position> {
        shifted(self.spawn_points@, self.position.x as int, self.position.y as int)
    }

    /// The room's far corner fits in machine integers.
    pub open spec fn placeable(&self) -> bool {
        self.position.x + self.width <= usize::MAX && self.position.y + self.height <= usize::MAX
    }

    /// A procedural room at (x, y): at least 20 x 20, walls around a floor.
    pub fn new(x: usize, y: usize, width: usize, height: usize, is_central: bool) -> (r: Room)
        ensures
            r.wf(),
            r.position == pos(x as int, y as int),
            r.width == max_side(width as int, MIN_ROOM_SIDE as int),
            r.height == max_side(height as int, MIN_ROOM_SIDE as int),
            forall|yy: int, xx: int|
                0 <= yy < r.height && 0 <= xx < r.width ==> #[trigger] r.tile(xx, yy)
                    == blank_tile(r.width as int, r.height as int, xx, yy),
            r.connections@ == blank_connections(r.width as int, r.height as int, is_central),
            r.spawn_points@.len() == 0,
            r.is_central == is_central,
            r.room_type == (if is_central {
                RoomType::Central
            } else {
                RoomType::Combat
            }),
            r.template_name is None,
    {
        let width = if width >= MIN_ROOM_SIDE {
            width
        } else {
            MIN_ROOM_SIDE
        };
        let height = if height >= MIN_ROOM_SIDE {
            height
        } else {
            MIN_ROOM_SIDE
        };
        let mut tiles: Vec<Vec<TileType>> = Vec::new();
        let mut row_index: usize = 0;
        while row_index < height
            invariant
                row_index <= height,
                height >= MIN_ROOM_SIDE,
                width >= MIN_ROOM_SIDE,
                tiles@.len() == row_index,
                forall|j: int| 0 <= j < row_index ==> (#[trigger] tiles@[j])@.len() == width,
                forall|j: int, i: int|
                    0 <= j < row_index && 0 <= i < width ==> (#[trigger] tiles@[j]@[i])
                        == blank_tile(width as int, height as int, i, j),
            decreases height - row_index,
        {
            let mut row: Vec<TileType> = Vec::new();
            let mut col: usize = 0;
            while col < width
                invariant
                    col <= width,
                    row_index < height,
                    row@.len() == col,
                    forall|i: int|
                        0 <= i < col ==> (#[trigger] row@[i]) == blank_tile(
                            width as int,
                            height as int,
                            i,
                            row_index as int,
                        ),
                decreases width - col,
            {
                if col == 0 || row_index == 0 || col == width - 1 || row_index == height - 1 {
                    row.push(TileType::Wall);
                } else {
                    row.push(TileType::Floor);
                }
                col += 1;
            }
            tiles.push(row);
            row_index += 1;
        }
        let mut connections: Vec<Position> = Vec::new();
        if !is_central {
            connections.push(Position { x: width / 2, y: 0 });
            connections.push(Position { x: width / 2, y: height - 1 });
            connections.push(Position { x: 0, y: height / 2 });
            connections.push(Position { x: width - 1, y: height / 2 });
            assert(connections@ =~= blank_connections(width as int, height as int, false));
        } else {
            let mut i: usize = 1;
            while i < width - 1
                invariant
                    1 <= i <= width - 1,
                    width >= MIN_ROOM_SIDE,
                    height >= MIN_ROOM_SIDE,
                    connections@ == column_marks(height as int, i as int),
                    all_within(connections@, width as int, height as int),
                decreases width - i,
            {
                if i % 2 == 0 {
                    connections.push(Position { x: i, y: 0 });
                    connections.push(Position { x: i, y: height - 1 });
                }
                i += 1;
            }
            let ghost top_bottom = connections@;
            let mut j: usize = 1;
            while j < height - 1
                invariant
                    1 <= j <= height - 1,
                    width >= MIN_ROOM_SIDE,
                    height >= MIN_ROOM_SIDE,
                    top_bottom == column_marks(height as int, width - 1),
                    connections@ == top_bottom + row_marks_lr(width as int, j as int),
                    all_within(connections@, width as int, height as int),
                decreases height - j,
            {
                if j % 2 == 0 {
                    connections.push(Position { x: 0, y: j });
                    connections.push(Position { x: width - 1, y: j });
                    assert(connections@ =~= top_bottom + row_marks_lr(width as int, j + 1));
                }
                j += 1;
            }
        }
        Room {
            position: Position { x, y },
            width,
            height,
            tiles,
            connections,
            spawn_points: Vec::new(),
            is_central,
            room_type: if is_central {
                RoomType::Central
            } else {
                RoomType::Combat
            },
            template_name: None,
        }
    }

    fn shift_all(ps: &Vec<Position>, dx: usize, dy: usize) -> (r: Vec<Position>)
        requires
            forall|i: int|
                0 <= i < ps@.len() ==> (#[trigger] ps@[i]).x + dx <= usize::MAX && ps@[i].y + dy
                    <= usize::MAX,
        ensures
            r@ == shifted(ps@, dx as int, dy as int),
    {
        let mut out: Vec<Position> = Vec::new();
        let mut i: usize = 0;
        while i < ps.len()
            invariant
                i <= ps@.len(),
                forall|k: int|
                    0 <= k < ps@.len() ==> (#[trigger] ps@[k]).x + dx <= usize::MAX && ps@[k].y
                        + dy <= usize::MAX,
                out@ =~= shifted(ps@, dx as int, dy as int).take(i as int),
            decreases ps@.len() - i,
        {
            let p = ps[i];
            out.push(Position { x: p.x + dx, y: p.y + dy });
            i += 1;
        }
        assert(shifted(ps@, dx as int, dy as int).take(ps@.len() as int) =~= shifted(
            ps@,
            dx as int,
            dy as int,
        ));
        out
    }

    /// Connector cells on the canvas.
    pub fn get_global_connections(&self) -> (r: Vec<Position>)
        requires
            self.wf(),
            self.placeable(),
        ensures
            r@ == self.global_connections(),
            all_within(r@, self.position.x + self.width, self.position.y + self.height),
    {
        Room::shift_all(&self.connections, self.position.x, self.position.y)
    }

    /// Spawn-marker cells on the canvas.
    pub fn get_global_spawn_points(&self) -> (r: Vec<Position>)
        requires
            self.wf(),
            self.placeable(),
        ensures
            r@ == self.global_spawn_points(),
            all_within(r@, self.position.x + self.width, self.position.y + self.height),
    {
        Room::shift_all(&self.spawn_points, self.position.x, self.position.y)
    }

    /// Turns the connector at `connection_index` into a door.
    pub fn add_door(&mut self, connection_index: usize) -> (r: Result<(), String>)
        requires
            old(self).wf(),
        ensures
            final(self).wf(),
            r is Ok <==> connection_index < old(self).connections@.len(),
            r is Ok ==> final(self).tiles@[old(self).connections@[connection_index as int].y as int]@
                == old(self).tiles@[old(self).connections@[connection_index as int].y as int]@.update(
                old(self).connections@[connection_index as int].x as int,
                TileType::Door,
            ),
            r is Ok ==> forall|j: int|
                0 <= j < old(self).height && j != old(self).connections@[connection_index as int].y
                    ==> (#[trigger] final(self).tiles@[j]) == old(self).tiles@[j],
            r is Err ==> *final(self) == *old(self),
            final(self).width == old(self).width,
            final(self).height == old(self).height,
            final(self).position == old(self).position,
            final(self).connections == old(self).connections,
            final(self).spawn_points == old(self).spawn_points,
            final(self).is_central == old(self).is_central,
            final(self).room_type == old(self).room_type,
            final(self).template_name == old(self).template_name,
    {
        if connection_index >= self.connections.len() {
            return Err("Connection index out of bounds".to_owned());
        }
        let conn = self.connections[connection_index];
        self.tiles[conn.y][conn.x] = TileType::Door;
        Ok(())
    }

    /// The name of the template this room came from, if any.
    pub fn get_template_name(&self) -> (r: Option<&str>)
        ensures
            r is Some <==> self.template_name is Some,
            r is Some ==> r->Some_0@ == self.template_name->Some_0@,
    {
        match &self.template_name {
            Some(name) => Some(name.as_str()),
            None => None,
        }
    }
}

/// Room constructors for the generators.
pub struct RoomUtils;

impl RoomUtils {
    /// A procedural room at (x, y), as `Room::new` builds it.
    pub fn create_room(x: usize, y: usize, width: usize, height: usize, is_central: bool) -> (r: Room)
        ensures
            r.wf(),
            r.position == pos(x as int, y as int),
            r.width == max_side(width as int, MIN_ROOM_SIDE as int),
            r.height == max_side(height as int, MIN_ROOM_SIDE as int),
            forall|yy: int, xx: int|
                0 <= yy < r.height && 0 <= xx < r.width ==> #[trigger] r.tile(xx, yy)
                    == blank_tile(r.width as int, r.height as int, xx, yy),
            r.connections@ == blank_connections(r.width as int, r.height as int, is_central),
            r.spawn_points@.len() == 0,
            r.is_central == is_central,
            r.room_type == (if is_central {
                RoomType::Central
            } else {
                RoomType::Combat
            }),
            r.template_name is None,
    {
        Room::new(x, y, width, height, is_central)
    }
}

/// The tile at (x, y) of a `src` grid of `sw` x `sh` drawn at offset (ox, oy)
/// on a wall background.
pub open spec fn placed_tile(
    src: Seq<Vec<TileType>>,
    sw: int,
    sh: int,
    ox: int,
    oy: int,
    x: int,
    y: int,
) -> TileType {
    if ox <= x < ox + sw && oy <= y < oy + sh {
        src[y - oy]@[x - ox]
    } else {
        TileType::Wall
    }
}

impl ParsedRoom {
    pub open spec fn wf(&self) -> bool {
        &&& self.width >= 1
        &&& self.height >= 1
        &&& grid_shape(self.tiles@, self.width as int, self.height as int)
        &&& all_within(self.connections@, self.width as int, self.height as int)
        &&& all_within(self.spawn_points@, self.width as int, self.height as int)
    }
}

/// Side of a room grown to a minimum.
pub open spec fn grown(side: int, min: int) -> int {
    max_side(side, min)
}

/// Offset that centres a side of `side` cells inside `total` cells.
pub open spec fn centring(total: int, side: int) -> int {
    (total - side) / 2
}

/// What placing a parsed room at (x, y), grown to at least `min_w` x `min_h`, yields.
pub open spec fn placed_from(r: Room, p: ParsedRoom, x: int, y: int, min_w: int, min_h: int) -> bool {
    let w = grown(p.width as int, min_w);
    let h = grown(p.height as int, min_h);
    let ox = centring(w, p.width as int);
    let oy = centring(h, p.height as int);
    &&& r.wf()
    &&& r.position == pos(x, y)
    &&& r.width == w
    &&& r.height == h
    &&& forall|yy: int, xx: int|
        0 <= yy < h && 0 <= xx < w ==> #[trigger] r.tile(xx, yy) == placed_tile(
            p.tiles@,
            p.width as int,
            p.height as int,
            ox,
            oy,
            xx,
            yy,
        )
    &&& r.connections@ == shifted(p.connections@, ox, oy)
    &&& r.spawn_points@ == shifted(p.spawn_points@, ox, oy)
    &&& r.is_central == p.is_central
    &&& r.room_type == p.room_type
    &&& r.template_name == Some(p.name)
}

/// Places a parsed room at (x, y), centring its pattern in a wall-filled grid of
/// at least `min_w` x `min_h`; connectors and markers move with the pattern.
pub fn place_parsed(parsed: ParsedRoom, x: usize, y: usize, min_w: usize, min_h: usize) -> (r: Room)
    requires
        parsed.wf(),
    ensures
        placed_from(r, parsed, x as int, y as int, min_w as int, min_h as int),
{
    let pw = parsed.width;
    let ph = parsed.height;
    let w = if pw >= min_w {
        pw
    } else {
        min_w
    };
    let h = if ph >= min_h {
        ph
    } else {
        min_h
    };
    let ox = (w - pw) / 2;
    let oy = (h - ph) / 2;
    let mut tiles: Vec<Vec<TileType>> = Vec::new();
    let mut yy: usize = 0;
    while yy < h
        invariant
            parsed.wf(),
            pw == parsed.width,
            ph == parsed.height,
            pw <= w,
            ph <= h,
            ox == (w - pw) / 2,
            oy == (h - ph) / 2,
            yy <= h,
            tiles@.len() == yy,
            forall|j: int| 0 <= j < yy ==> (#[trigger] tiles@[j])@.len() == w,
            forall|j: int, i: int|
                0 <= j < yy && 0 <= i < w ==> (#[trigger] tiles@[j]@[i]) == placed_tile(
                    parsed.tiles@,
                    pw as int,
                    ph as int,
                    ox as int,
                    oy as int,
                    i,
                    j,
                ),
        decreases h - yy,
    {
        let mut row: Vec<TileType> = Vec::new();
        let mut xx: usize = 0;
        while xx < w
            invariant
                parsed.wf(),
                pw == parsed.width,
                ph == parsed.height,
                pw <= w,
                ph <= h,
                ox == (w - pw) / 2,
                oy == (h - ph) / 2,
                yy < h,
                xx <= w,
                row@.len() == xx,
                forall|i: int|
                    0 <= i < xx ==> (#[trigger] row@[i]) == placed_tile(
                        parsed.tiles@,
                        pw as int,
                        ph as int,
                        ox as int,
                        oy as int,
                        i,
                        yy as int,
                    ),
            decreases w - xx,
        {
            if ox <= xx && xx < ox + pw && oy <= yy && yy < oy + ph {
                let t = parsed.tiles[yy - oy][xx - ox];
                row.push(t);
            } else {
                row.push(TileType::Wall);
            }
            xx += 1;
        }
        tiles.push(row);
        yy += 1;
    }
    let connections = Room::shift_all(&parsed.connections, ox, oy);
    let spawn_points = Room::shift_all(&parsed.spawn_points, ox, oy);
    proof {
        assert(all_within(connections@, w as int, h as int));
        assert(all_within(spawn_points@, w as int, h as int));
    }
    Room {
        position: Position { x, y },
        width: w,
        height: h,
        tiles,
        connections,
        spawn_points,
        is_central: parsed.is_central,
        room_type: parsed.room_type,
        template_name: Some(parsed.name),
    }
}

} // verus!
