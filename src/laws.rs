use vstd::prelude::*;

use crate::canvas::{code_at, in_canvas, linked};
use crate::dungeon::{finished, same_dims, DungeonGenerator};
use crate::level::{level_ok, tiles_have_floor, LevelResult};
use crate::room::{pos, Room, MIN_ROOM_SIDE};
use crate::spawn::{
    corner_points, edge_points, first_floor, floor_filter, marker_points, room_edge_points, row_edge_points,
};
use crate::tile::Position;
use crate::tile::{orthogonally_adjacent, walkable_at, DOOR_CODE, FLOOR_CODE, WALL_CODE};

verus! {

/// Every room of a generated level is at least the configured room size, which is
/// itself at least 20 x 20.
pub proof fn law_room_size(g: DungeonGenerator)
    requires
        finished(g),
    ensures
        g.room_width >= MIN_ROOM_SIDE,
        g.room_height >= MIN_ROOM_SIDE,
        forall|i: int|
            0 <= i < g.rooms@.len() ==> (#[trigger] g.rooms@[i]).width >= g.room_width
                && g.rooms@[i].height >= g.room_height,
{
}

/// No room of a generated level reaches past the canvas.
pub proof fn law_rooms_on_canvas(g: DungeonGenerator)
    requires
        finished(g),
    ensures
        forall|i: int|
            0 <= i < g.rooms@.len() ==> (#[trigger] g.rooms@[i]).position.x + g.rooms@[i].width
                <= g.width && g.rooms@[i].position.y + g.rooms@[i].height <= g.height,
{
    assert forall|i: int| 0 <= i < g.rooms@.len() implies (#[trigger] g.rooms@[i]).position.x
        + g.rooms@[i].width <= g.width && g.rooms@[i].position.y + g.rooms@[i].height
        <= g.height by {
        assert(g.rooms@[i].wf());
    }
}

/// Exactly one room of a generated level is central.
pub proof fn law_one_central(g: DungeonGenerator)
    requires
        finished(g),
    ensures
        exists|i: int| 0 <= i < g.rooms@.len() && (#[trigger] g.rooms@[i]).is_central,
        forall|i: int, j: int|
            0 <= i < g.rooms@.len() && 0 <= j < g.rooms@.len() && (#[trigger] g.rooms@[i]).is_central
                && (#[trigger] g.rooms@[j]).is_central ==> i == j,
{
    assert(g.rooms@[0].is_central);
}

/// Where a connector of one room touches a connector of another, both cells are
/// doors on the canvas, side by side: no such door stands alone.
pub proof fn law_doors_in_pairs(g: DungeonGenerator, a: crate::tile::Position, b: crate::tile::Position)
    requires
        finished(g),
        linked(g.rooms@, a, b),
    ensures
        in_canvas(a, g.width as int, g.height as int),
        in_canvas(b, g.width as int, g.height as int),
        code_at(g.map@, a) == DOOR_CODE,
        code_at(g.map@, b) == DOOR_CODE,
        orthogonally_adjacent(a, b),
{
}

/// Every tile code of a generated level is 0, 1 or 2, and a cell is walkable
/// exactly when it is on the level and its code is 1 or 2.
pub proof fn law_walkability_codec(l: LevelResult, x: int, y: int)
    requires
        level_ok(l),
    ensures
        forall|i: int|
            0 <= i < l.tiles@.len() ==> #[trigger] l.tiles@[i] == WALL_CODE || l.tiles@[i] == FLOOR_CODE
                || l.tiles@[i] == DOOR_CODE,
        walkable_at(l.tiles@, x, y, l.width as int, l.height as int) <==> (0 <= x < l.width && 0
            <= y < l.height && (l.tiles@[y * l.width + x] == FLOOR_CODE || l.tiles@[y * l.width
            + x] == DOOR_CODE)),
{
    if 0 <= x < l.width && 0 <= y < l.height {
        assert(0 <= y * l.width + x < l.width * l.height) by (nonlinear_arith)
            requires
                0 <= x < l.width,
                0 <= y < l.height,
        ;
    }
}

/// A generated level always has spawn points, all on the level; the primary spawn
/// is one of them; and whenever any tile of the level is floor, every spawn point
/// (the primary one included) is a floor tile.
pub proof fn law_spawn(l: LevelResult)
    requires
        level_ok(l),
    ensures
        l.spawn_points@.len() > 0,
        l.spawn_points@.contains(l.spawn_position),
        in_canvas(l.spawn_position, l.width as int, l.height as int),
        tiles_have_floor(l.tiles@) ==> forall|k: int|
            0 <= k < l.spawn_points@.len() ==> walkable_at(
                l.tiles@,
                (#[trigger] l.spawn_points@[k]).x as int,
                l.spawn_points@[k].y as int,
                l.width as int,
                l.height as int,
            ),
        tiles_have_floor(l.tiles@) ==> l.tiles@[l.spawn_position.y * l.width + l.spawn_position.x]
            == FLOOR_CODE,
{
    let w = l.width as int;
    let h = l.height as int;
    let s = l.spawn_position;
    let k = choose|k: int| 0 <= k < l.spawn_points@.len() && l.spawn_points@[k] == s && (forall|j: int|
        0 <= j < l.spawn_points@.len() ==> crate::spawn::edge_distance(s, w, h)
            <= crate::spawn::edge_distance(#[trigger] l.spawn_points@[j], w, h)) && (forall|j: int|
        0 <= j < k ==> crate::spawn::edge_distance(s, w, h) < crate::spawn::edge_distance(
            #[trigger] l.spawn_points@[j],
            w,
            h,
        ));
    assert(in_canvas(l.spawn_points@[k], w, h));
    assert forall|j: int| 0 <= j < l.spawn_points@.len() implies 0 <= (
    #[trigger] l.spawn_points@[j]).y * w + l.spawn_points@[j].x < w * h by {
        let p = l.spawn_points@[j];
        assert(in_canvas(p, w, h));
        assert(0 <= p.y * w + p.x < w * h) by (nonlinear_arith)
            requires
                0 <= p.x < w,
                0 <= p.y < h,
        ;
    }
}

/// Two canvases hold the same code in every cell of a `width` x `height` level.
pub open spec fn same_cells(m1: Seq<Vec<u8>>, m2: Seq<Vec<u8>>, width: int, height: int) -> bool {
    forall|y: int, x: int| 0 <= y < height && 0 <= x < width ==> #[trigger] m1[y]@[x] == m2[y]@[x]
}

proof fn lemma_floor_filter_same(
    ps: Seq<Position>,
    m1: Seq<Vec<u8>>,
    m2: Seq<Vec<u8>>,
    w: int,
    h: int,
    n: int,
)
    requires
        same_cells(m1, m2, w, h),
    ensures
        floor_filter(ps, m1, w, h, n) == floor_filter(ps, m2, w, h, n),
    decreases n,
{
    if n > 0 {
        lemma_floor_filter_same(ps, m1, m2, w, h, n - 1);
        let p = ps[n - 1];
        if in_canvas(p, w, h) {
            assert(m1[p.y as int]@[p.x as int] == m2[p.y as int]@[p.x as int]);
        }
    }
}

proof fn lemma_marker_points_same(
    rooms: Seq<Room>,
    m1: Seq<Vec<u8>>,
    m2: Seq<Vec<u8>>,
    w: int,
    h: int,
    k: int,
)
    requires
        same_cells(m1, m2, w, h),
    ensures
        marker_points(rooms, m1, w, h, k) == marker_points(rooms, m2, w, h, k),
    decreases k,
{
    if k > 0 {
        lemma_marker_points_same(rooms, m1, m2, w, h, k - 1);
        let g = rooms[k - 1].global_spawn_points();
        lemma_floor_filter_same(g, m1, m2, w, h, g.len() as int);
    }
}

proof fn lemma_row_edge_points_same(
    room: Room,
    m1: Seq<Vec<u8>>,
    m2: Seq<Vec<u8>>,
    w: int,
    h: int,
    r: int,
    n: int,
)
    requires
        same_cells(m1, m2, w, h),
    ensures
        row_edge_points(room, m1, w, h, r, n) == row_edge_points(room, m2, w, h, r, n),
    decreases n,
{
    if n > 0 {
        lemma_row_edge_points_same(room, m1, m2, w, h, r, n - 1);
        let p = pos(room.position.x + n - 1, room.position.y + r);
        if in_canvas(p, w, h) {
            assert(m1[p.y as int]@[p.x as int] == m2[p.y as int]@[p.x as int]);
        }
    }
}

proof fn lemma_room_edge_points_same(
    room: Room,
    m1: Seq<Vec<u8>>,
    m2: Seq<Vec<u8>>,
    w: int,
    h: int,
    m: int,
)
    requires
        same_cells(m1, m2, w, h),
    ensures
        room_edge_points(room, m1, w, h, m) == room_edge_points(room, m2, w, h, m),
    decreases m,
{
    if m > 0 {
        lemma_room_edge_points_same(room, m1, m2, w, h, m - 1);
        lemma_row_edge_points_same(room, m1, m2, w, h, m - 1, room.width as int);
    }
}

proof fn lemma_edge_points_same(
    rooms: Seq<Room>,
    m1: Seq<Vec<u8>>,
    m2: Seq<Vec<u8>>,
    w: int,
    h: int,
    k: int,
)
    requires
        same_cells(m1, m2, w, h),
    ensures
        edge_points(rooms, m1, w, h, k) == edge_points(rooms, m2, w, h, k),
    decreases k,
{
    if k > 0 {
        lemma_edge_points_same(rooms, m1, m2, w, h, k - 1);
        let room = rooms[k - 1];
        lemma_room_edge_points_same(room, m1, m2, w, h, room.height as int);
    }
}

/// Once the rooms are placed, the rest of generation is fixed: two generated levels
/// with the same sizes and the same rooms have the same tiles and the same spawn
/// points. (Which rooms are placed depends on the random draws.)
pub proof fn law_placement_decides_level(g1: DungeonGenerator, g2: DungeonGenerator)
    requires
        finished(g1),
        finished(g2),
        same_dims(g1, g2),
        g1.rooms@ == g2.rooms@,
    ensures
        same_cells(g1.map@, g2.map@, g1.width as int, g1.height as int),
        g1.spawn_points@ == g2.spawn_points@,
{
    let w = g1.width as int;
    let h = g1.height as int;
    assert forall|y: int, x: int| 0 <= y < h && 0 <= x < w implies #[trigger] g1.map@[y]@[x]
        == g2.map@[y]@[x] by {
        assert(g1.map@[y]@[x] == g2.map@[y]@[x]);
    }
    let n = g1.rooms@.len() as int;
    lemma_marker_points_same(g1.rooms@, g1.map@, g2.map@, w, h, n);
    lemma_edge_points_same(g1.rooms@, g1.map@, g2.map@, w, h, n);
    lemma_floor_filter_same(corner_points(w, h), g1.map@, g2.map@, w, h, 4);
    if crate::spawn::any_floor(g1.map@, w, h) {
        let (y, x) = choose|y: int, x: int|
            0 <= y < h && 0 <= x < w && #[trigger] g1.map@[y]@[x] == crate::tile::FLOOR_CODE;
        assert(g2.map@[y]@[x] == g1.map@[y]@[x]);
    }
    if crate::spawn::any_floor(g2.map@, w, h) {
        let (y, x) = choose|y: int, x: int|
            0 <= y < h && 0 <= x < w && #[trigger] g2.map@[y]@[x] == crate::tile::FLOOR_CODE;
        assert(g1.map@[y]@[x] == g2.map@[y]@[x]);
    }
    if g1.spawn_points@.len() == 1 && g2.spawn_points@.len() == 1 && first_floor(
        g1.map@,
        w,
        h,
        g1.spawn_points@[0],
    ) && first_floor(g2.map@, w, h, g2.spawn_points@[0]) {
        let p = g1.spawn_points@[0];
        let q = g2.spawn_points@[0];
        assert(g1.map@[q.y as int]@[q.x as int] == g2.map@[q.y as int]@[q.x as int]);
        assert(g1.map@[p.y as int]@[p.x as int] == g2.map@[p.y as int]@[p.x as int]);
        assert(p == q);
        assert(g1.spawn_points@ =~= g2.spawn_points@);
    }
}

} // verus!
