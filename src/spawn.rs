use vstd::prelude::*;

use crate::canvas::{canvas_shape, code_at, fits, in_canvas, rooms_fit};
use crate::room::{pos, Room};
use crate::template::RoomType;
use crate::tile::{Position, TileType, FLOOR_CODE};

verus! {

/// The cell is on the canvas and holds floor.
pub open spec fn floor_at(map: Seq<Vec<u8>>, p: Position, width: int, height: int) -> bool {
    in_canvas(p, width, height) && code_at(map, p) == FLOOR_CODE
}

/// The first `n` positions of `ps` that are floor on the canvas, in order.
pub open spec fn floor_filter(
    ps: Seq<Position>,
    map: Seq<Vec<u8>>,
    width: int,
    height: int,
    n: int,
) -> Seq<Position>
    decreases n,
{
    if n <= 0 {
        Seq::empty()
    } else {
        let pre = floor_filter(ps, map, width, height, n - 1);
        if floor_at(map, ps[n - 1], width, height) {
            pre.push(ps[n - 1])
        } else {
            pre
        }
    }
}

/// Spawn markers of the spawn-category rooms among the first `k`, that are floor
/// on the canvas, room by room.
pub open spec fn marker_points(
    rooms: Seq<Room>,
    map: Seq<Vec<u8>>,
    width: int,
    height: int,
    k: int,
) -> Seq<Position>
    decreases k,
{
    if k <= 0 {
        Seq::empty()
    } else {
        let pre = marker_points(rooms, map, width, height, k - 1);
        if rooms[k - 1].room_type == RoomType::Spawn {
            let g = rooms[k - 1].global_spawn_points();
            pre + floor_filter(g, map, width, height, g.len() as int)
        } else {
            pre
        }
    }
}

/// The room reaches a border of the canvas.
pub open spec fn touches_edge(room: Room, width: int, height: int) -> bool {
    room.position.x == 0 || room.position.x + room.width >= width || room.position.y == 0
        || room.position.y + room.height >= height
}

/// The cell lies within two tiles of a border.
pub open spec fn near_edge(p: Position, width: int, height: int) -> bool {
    p.x < 2 || p.x + 2 >= width || p.y < 2 || p.y + 2 >= height
}

/// Floor cell (c, r) of `room` lies near a border and is floor on the canvas.
pub open spec fn edge_hit(room: Room, map: Seq<Vec<u8>>, width: int, height: int, c: int, r: int) -> bool {
    let p = pos(room.position.x + c, room.position.y + r);
    &&& room.tile(c, r) == TileType::Floor
    &&& near_edge(p, width, height)
    &&& floor_at(map, p, width, height)
}

/// Spawn cells near a border among the first `n` cells of row `r` of `room`.
pub open spec fn row_edge_points(
    room: Room,
    map: Seq<Vec<u8>>,
    width: int,
    height: int,
    r: int,
    n: int,
) -> Seq<Position>
    decreases n,
{
    if n <= 0 {
        Seq::empty()
    } else {
        let pre = row_edge_points(room, map, width, height, r, n - 1);
        if edge_hit(room, map, width, height, n - 1, r) {
            pre.push(pos(room.position.x + n - 1, room.position.y + r))
        } else {
            pre
        }
    }
}

/// Spawn cells near a border among the first `m` rows of `room`, row by row.
pub open spec fn room_edge_points(
    room: Room,
    map: Seq<Vec<u8>>,
    width: int,
    height: int,
    m: int,
) -> Seq<Position>
    decreases m,
{
    if m <= 0 {
        Seq::empty()
    } else {
        room_edge_points(room, map, width, height, m - 1) + row_edge_points(
            room,
            map,
            width,
            height,
            m - 1,
            room.width as int,
        )
    }
}

/// Spawn cells near a border of the first `k` rooms that are not central and reach
/// a border, room by room.
pub open spec fn edge_points(
    rooms: Seq<Room>,
    map: Seq<Vec<u8>>,
    width: int,
    height: int,
    k: int,
) -> Seq<Position>
    decreases k,
{
    if k <= 0 {
        Seq::empty()
    } else {
        let pre = edge_points(rooms, map, width, height, k - 1);
        let room = rooms[k - 1];
        if !room.is_central && touches_edge(room, width, height) {
            pre + room_edge_points(room, map, width, height, room.height as int)
        } else {
            pre
        }
    }
}

/// Every position of the list is floor on the canvas.
pub open spec fn all_floor(ps: Seq<Position>, map: Seq<Vec<u8>>, width: int, height: int) -> bool {
    forall|k: int| 0 <= k < ps.len() ==> floor_at(map, #[trigger] ps[k], width, height)
}

proof fn lemma_all_floor_concat(
    a: Seq<Position>,
    b: Seq<Position>,
    map: Seq<Vec<u8>>,
    width: int,
    height: int,
)
    requires
        all_floor(a, map, width, height),
        all_floor(b, map, width, height),
    ensures
        all_floor(a + b, map, width, height),
{
    assert forall|k: int| 0 <= k < (a + b).len() implies floor_at(
        map,
        #[trigger] (a + b)[k],
        width,
        height,
    ) by {
        if k < a.len() {
            assert((a + b)[k] == a[k]);
        } else {
            assert((a + b)[k] == b[k - a.len()]);
        }
    }
}

proof fn lemma_edge_points_floor(rooms: Seq<Room>, map: Seq<Vec<u8>>, width: int, height: int, k: int)
    ensures
        all_floor(edge_points(rooms, map, width, height, k), map, width, height),
    decreases k,
{
    if k > 0 {
        lemma_edge_points_floor(rooms, map, width, height, k - 1);
        let room = rooms[k - 1];
        lemma_room_edge_points_floor(room, map, width, height, room.height as int);
        lemma_all_floor_concat(
            edge_points(rooms, map, width, height, k - 1),
            room_edge_points(room, map, width, height, room.height as int),
            map,
            width,
            height,
        );
    }
}

proof fn lemma_room_edge_points_floor(room: Room, map: Seq<Vec<u8>>, width: int, height: int, m: int)
    ensures
        all_floor(room_edge_points(room, map, width, height, m), map, width, height),
    decreases m,
{
    if m > 0 {
        lemma_room_edge_points_floor(room, map, width, height, m - 1);
        lemma_row_edge_points_floor(room, map, width, height, m - 1, room.width as int);
        lemma_all_floor_concat(
            room_edge_points(room, map, width, height, m - 1),
            row_edge_points(room, map, width, height, m - 1, room.width as int),
            map,
            width,
            height,
        );
    }
}

proof fn lemma_row_edge_points_floor(
    room: Room,
    map: Seq<Vec<u8>>,
    width: int,
    height: int,
    r: int,
    n: int,
)
    ensures
        all_floor(row_edge_points(room, map, width, height, r, n), map, width, height),
    decreases n,
{
    if n > 0 {
        lemma_row_edge_points_floor(room, map, width, height, r, n - 1);
        let pre = row_edge_points(room, map, width, height, r, n - 1);
        let f = row_edge_points(room, map, width, height, r, n);
        assert forall|k: int| 0 <= k < f.len() implies floor_at(map, #[trigger] f[k], width, height) by {
            if k < pre.len() {
                assert(f[k] == pre[k]);
            }
        }
    }
}

/// Four points two tiles in from each corner.
pub open spec fn corner_points(width: int, height: int) -> Seq<Position> {
    seq![pos(2, 2), pos(width - 3, 2), pos(2, height - 3), pos(width - 3, height - 3)]
}

fn marker_spawn_points(rooms: &Vec<Room>, map: &Vec<Vec<u8>>, width: usize, height: usize) -> (r: Vec<
    Position,
>)
    requires
        rooms_fit(rooms@, width as int, height as int),
        canvas_shape(map@, width as int, height as int),
    ensures
        r@ == marker_points(rooms@, map@, width as int, height as int, rooms@.len() as int),
{
    let mut out: Vec<Position> = Vec::new();
    let mut k: usize = 0;
    while k < rooms.len()
        invariant
            k <= rooms@.len(),
            rooms_fit(rooms@, width as int, height as int),
            canvas_shape(map@, width as int, height as int),
            out@ == marker_points(rooms@, map@, width as int, height as int, k as int),
        decreases rooms@.len() - k,
    {
        if rooms[k].room_type == RoomType::Spawn {
            assert(rooms@[k as int].wf() && fits(rooms@[k as int], width as int, height as int));
            let g = rooms[k].get_global_spawn_points();
            let ghost before = out@;
            let mut t: usize = 0;
            while t < g.len()
                invariant
                    t <= g@.len(),
                    canvas_shape(map@, width as int, height as int),
                    out@ == before + floor_filter(g@, map@, width as int, height as int, t as int),
                decreases g@.len() - t,
            {
                let p = g[t];
                if p.x < width && p.y < height && map[p.y][p.x] == FLOOR_CODE {
                    out.push(p);
                    assert(out@ =~= before + floor_filter(
                        g@,
                        map@,
                        width as int,
                        height as int,
                        t + 1,
                    ));
                }
                t += 1;
            }
        }
        k += 1;
    }
    out
}

fn edge_spawn_points(rooms: &Vec<Room>, map: &Vec<Vec<u8>>, width: usize, height: usize) -> (r: Vec<
    Position,
>)
    requires
        rooms_fit(rooms@, width as int, height as int),
        canvas_shape(map@, width as int, height as int),
    ensures
        r@ == edge_points(rooms@, map@, width as int, height as int, rooms@.len() as int),
{
    let ghost rs = rooms@;
    let ghost m = map@;
    let ghost w = width as int;
    let ghost h = height as int;
    let mut out: Vec<Position> = Vec::new();
    let mut i: usize = 0;
    while i < rooms.len()
        invariant
            rs == rooms@,
            m == map@,
            w == width,
            h == height,
            i <= rs.len(),
            rooms_fit(rs, w, h),
            canvas_shape(m, w, h),
            out@ == edge_points(rs, m, w, h, i as int),
        decreases rs.len() - i,
    {
        let room = &rooms[i];
        assert(room.wf() && fits(*room, w, h));
        let px = room.position.x;
        let py = room.position.y;
        let touches = px == 0 || px + room.width >= width || py == 0 || py + room.height >= height;
        if !room.is_central && touches {
            let ghost before = out@;
            let mut r: usize = 0;
            while r < room.height
                invariant
                    m == map@,
                    w == width,
                    h == height,
                    room.wf(),
                    fits(*room, w, h),
                    px == room.position.x,
                    py == room.position.y,
                    r <= room.height,
                    canvas_shape(m, w, h),
                    out@ == before + room_edge_points(*room, m, w, h, r as int),
                decreases room.height - r,
            {
                let ghost row_start = out@;
                let mut c: usize = 0;
                while c < room.width
                    invariant
                        m == map@,
                        w == width,
                        h == height,
                        room.wf(),
                        fits(*room, w, h),
                        px == room.position.x,
                        py == room.position.y,
                        r < room.height,
                        c <= room.width,
                        canvas_shape(m, w, h),
                        row_start == before + room_edge_points(*room, m, w, h, r as int),
                        out@ == row_start + row_edge_points(*room, m, w, h, r as int, c as int),
                    decreases room.width - c,
                {
                    let gx = px + c;
                    let gy = py + r;
                    let near = gx < 2 || width - gx <= 2 || gy < 2 || height - gy <= 2;
                    if room.tiles[r][c] == TileType::Floor && near && map[gy][gx] == FLOOR_CODE {
                        out.push(Position { x: gx, y: gy });
                        assert(out@ =~= row_start + row_edge_points(
                            *room,
                            m,
                            w,
                            h,
                            r as int,
                            c + 1,
                        ));
                    }
                    c += 1;
                }
                assert(out@ =~= before + room_edge_points(*room, m, w, h, r + 1));
                r += 1;
            }
        }
        i += 1;
    }
    out
}

/// Which spawn points a level with these rooms and this canvas gets (see
/// `extract_spawn_points`), and that they are never empty and lie on the canvas.
pub open spec fn spawn_rule(
    rooms: Seq<Room>,
    map: Seq<Vec<u8>>,
    width: int,
    height: int,
    r: Seq<Position>,
) -> bool {
    let markers = marker_points(rooms, map, width, height, rooms.len() as int);
    let edges = edge_points(rooms, map, width, height, rooms.len() as int);
    let corners = floor_filter(corner_points(width, height), map, width, height, 4);
    &&& markers.len() > 0 ==> r == markers
    &&& markers.len() == 0 && edges.len() > 0 ==> r == edges
    &&& markers.len() == 0 && edges.len() == 0 && corners.len() > 0 ==> r == corners
    &&& markers.len() == 0 && edges.len() == 0 && corners.len() == 0 && any_floor(
        map,
        width,
        height,
    ) ==> r.len() == 1 && first_floor(map, width, height, r[0])
    &&& markers.len() == 0 && edges.len() == 0 && corners.len() == 0 && !any_floor(
        map,
        width,
        height,
    ) ==> r == corner_points(width, height)
    &&& any_floor(map, width, height) ==> all_floor(r, map, width, height)
    &&& r.len() > 0
    &&& forall|k: int| 0 <= k < r.len() ==> in_canvas(#[trigger] r[k], width, height)
}

/// Some cell of the canvas is floor.
pub open spec fn any_floor(map: Seq<Vec<u8>>, width: int, height: int) -> bool {
    exists|y: int, x: int|
        0 <= y < height && 0 <= x < width && #[trigger] map[y]@[x] == FLOOR_CODE
}

/// `p` is the first floor cell of the canvas in row-major order.
pub open spec fn first_floor(map: Seq<Vec<u8>>, width: int, height: int, p: Position) -> bool {
    &&& floor_at(map, p, width, height)
    &&& forall|y: int, x: int|
        0 <= y < height && 0 <= x < width && (y < p.y || (y == p.y && x < p.x)) ==> #[trigger] map[y]@[x]
            != FLOOR_CODE
}

/// The first floor cell of the canvas in row-major order, if any.
fn first_floor_cell(map: &Vec<Vec<u8>>, width: usize, height: usize) -> (r: Option<Position>)
    requires
        canvas_shape(map@, width as int, height as int),
    ensures
        r matches Some(p) ==> first_floor(map@, width as int, height as int, p),
        r is None ==> !any_floor(map@, width as int, height as int),
{
    let mut y: usize = 0;
    while y < height
        invariant
            y <= height,
            canvas_shape(map@, width as int, height as int),
            forall|yy: int, xx: int|
                0 <= yy < y && 0 <= xx < width ==> #[trigger] map@[yy]@[xx] != FLOOR_CODE,
        decreases height - y,
    {
        let mut x: usize = 0;
        while x < width
            invariant
                y < height,
                x <= width,
                canvas_shape(map@, width as int, height as int),
                forall|yy: int, xx: int|
                    0 <= yy < height && 0 <= xx < width && (yy < y || (yy == y && xx < x))
                        ==> #[trigger] map@[yy]@[xx] != FLOOR_CODE,
            decreases width - x,
        {
            if map[y][x] == FLOOR_CODE {
                return Some(Position { x, y });
            }
            x += 1;
        }
        y += 1;
    }
    None
}

/// Where players may appear: the floor spawn markers of the spawn-category rooms;
/// failing those, the floor cells near a border of the rooms that reach one (the
/// central room aside); failing those, a point two tiles in from each corner.
pub fn extract_spawn_points(rooms: &Vec<Room>, map: &Vec<Vec<u8>>, width: usize, height: usize) -> (r:
    Vec<Position>)
    requires
        rooms_fit(rooms@, width as int, height as int),
        canvas_shape(map@, width as int, height as int),
        width >= 5,
        height >= 5,
    ensures
        spawn_rule(rooms@, map@, width as int, height as int, r@),
{
    let markers = marker_spawn_points(rooms, map, width, height);
    proof {
        lemma_marker_points_floor(rooms@, map@, width as int, height as int, rooms@.len() as int);
    }
    if markers.len() > 0 {
        return markers;
    }
    let edges = edge_spawn_points(rooms, map, width, height);
    proof {
        lemma_edge_points_floor(rooms@, map@, width as int, height as int, rooms@.len() as int);
    }
    if edges.len() > 0 {
        return edges;
    }
    let mut corners: Vec<Position> = Vec::new();
    corners.push(Position { x: 2, y: 2 });
    corners.push(Position { x: width - 3, y: 2 });
    corners.push(Position { x: 2, y: height - 3 });
    corners.push(Position { x: width - 3, y: height - 3 });
    assert(corners@ =~= corner_points(width as int, height as int));
    let ghost cs = corners@;
    let mut floor_corners: Vec<Position> = Vec::new();
    let mut k: usize = 0;
    while k < 4
        invariant
            k <= 4,
            corners@ == cs,
            cs.len() == 4,
            forall|t: int| 0 <= t < 4 ==> in_canvas(#[trigger] cs[t], width as int, height as int),
            canvas_shape(map@, width as int, height as int),
            floor_corners@ == floor_filter(cs, map@, width as int, height as int, k as int),
        decreases 4 - k,
    {
        let p = corners[k];
        if map[p.y][p.x] == FLOOR_CODE {
            floor_corners.push(p);
        }
        k += 1;
    }
    proof {
        lemma_floor_filter(cs, map@, width as int, height as int, 4);
        lemma_floor_filter_within(cs, map@, width as int, height as int, 4);
    }
    if floor_corners.len() > 0 {
        return floor_corners;
    }
    match first_floor_cell(map, width, height) {
        Some(p) => {
            let mut only: Vec<Position> = Vec::new();
            only.push(p);
            only
        },
        None => corners,
    }
}

proof fn lemma_floor_filter_within(ps: Seq<Position>, map: Seq<Vec<u8>>, width: int, height: int, n: int)
    ensures
        forall|k: int|
            0 <= k < floor_filter(ps, map, width, height, n).len() ==> in_canvas(
                #[trigger] floor_filter(ps, map, width, height, n)[k],
                width,
                height,
            ),
    decreases n,
{
    if n > 0 {
        lemma_floor_filter(ps, map, width, height, n);
    }
}

proof fn lemma_floor_filter(ps: Seq<Position>, map: Seq<Vec<u8>>, width: int, height: int, n: int)
    ensures
        forall|k: int|
            0 <= k < floor_filter(ps, map, width, height, n).len() ==> floor_at(
                map,
                #[trigger] floor_filter(ps, map, width, height, n)[k],
                width,
                height,
            ),
    decreases n,
{
    if n > 0 {
        lemma_floor_filter(ps, map, width, height, n - 1);
        let pre = floor_filter(ps, map, width, height, n - 1);
        let f = floor_filter(ps, map, width, height, n);
        assert forall|k: int| 0 <= k < f.len() implies floor_at(map, #[trigger] f[k], width, height) by {
            if k < pre.len() {
                assert(f[k] == pre[k]);
            }
        }
    }
}

proof fn lemma_marker_points_floor(
    rooms: Seq<Room>,
    map: Seq<Vec<u8>>,
    width: int,
    height: int,
    k: int,
)
    ensures
        forall|t: int|
            0 <= t < marker_points(rooms, map, width, height, k).len() ==> floor_at(
                map,
                #[trigger] marker_points(rooms, map, width, height, k)[t],
                width,
                height,
            ),
    decreases k,
{
    if k > 0 {
        lemma_marker_points_floor(rooms, map, width, height, k - 1);
        let g = rooms[k - 1].global_spawn_points();
        lemma_floor_filter(g, map, width, height, g.len() as int);
        let pre = marker_points(rooms, map, width, height, k - 1);
        let f = floor_filter(g, map, width, height, g.len() as int);
        if rooms[k - 1].room_type == RoomType::Spawn {
            assert forall|t: int| 0 <= t < (pre + f).len() implies floor_at(
                map,
                #[trigger] (pre + f)[t],
                width,
                height,
            ) by {
                if t < pre.len() {
                    assert((pre + f)[t] == pre[t]);
                } else {
                    assert((pre + f)[t] == f[t - pre.len()]);
                }
            }
        }
    }
}

/// Distance from a cell to the nearest border of the canvas.
pub open spec fn edge_distance(p: Position, width: int, height: int) -> int {
    let left = p.x as int;
    let right = if width > p.x + 1 {
        width - p.x - 1
    } else {
        0
    };
    let top = p.y as int;
    let bottom = if height > p.y + 1 {
        height - p.y - 1
    } else {
        0
    };
    let a = if left <= right {
        left
    } else {
        right
    };
    let b = if top <= bottom {
        top
    } else {
        bottom
    };
    if a <= b {
        a
    } else {
        b
    }
}

fn distance_to_edge(p: Position, width: usize, height: usize) -> (r: usize)
    ensures
        r == edge_distance(p, width as int, height as int),
{
    let right = if p.x < width {
        width - 1 - p.x
    } else {
        0
    };
    let bottom = if p.y < height {
        height - 1 - p.y
    } else {
        0
    };
    let a = if p.x <= right {
        p.x
    } else {
        right
    };
    let b = if p.y <= bottom {
        p.y
    } else {
        bottom
    };
    if a <= b {
        a
    } else {
        b
    }
}

/// `p` is the first point of the list whose distance to the nearest border is least.
pub open spec fn best_of(points: Seq<Position>, p: Position, width: int, height: int) -> bool {
    exists|k: int|
        0 <= k < points.len() && points[k] == p && (forall|j: int|
            0 <= j < points.len() ==> edge_distance(p, width, height) <= edge_distance(
                #[trigger] points[j],
                width,
                height,
            )) && (forall|j: int|
            0 <= j < k ==> edge_distance(p, width, height) < edge_distance(
                #[trigger] points[j],
                width,
                height,
            ))
}

/// The first point, in list order, whose distance to the nearest border is least.
pub fn best_spawn_point(points: &Vec<Position>, width: usize, height: usize) -> (r: Option<Position>)
    ensures
        r is None <==> points@.len() == 0,
        r matches Some(p) ==> best_of(points@, p, width as int, height as int),
{
    if points.len() == 0 {
        return None;
    }
    let mut best: usize = 0;
    let mut best_d = distance_to_edge(points[0], width, height);
    let mut i: usize = 1;
    while i < points.len()
        invariant
            1 <= i <= points@.len(),
            best < i,
            best_d == edge_distance(points@[best as int], width as int, height as int),
            forall|j: int|
                0 <= j < i ==> best_d <= edge_distance(#[trigger] points@[j], width as int, height as int),
            forall|j: int|
                0 <= j < best ==> best_d < edge_distance(#[trigger] points@[j], width as int, height as int),
        decreases points@.len() - i,
    {
        let d = distance_to_edge(points[i], width, height);
        if d < best_d {
            best = i;
            best_d = d;
        }
        i += 1;
    }
    assert(points@[best as int] == points@[best as int]);
    Some(points[best])
}

} // verus!
