use vstd::prelude::*;

use crate::room::Room;
use crate::tile::{is_adjacent, orthogonally_adjacent, Position, DOOR_CODE, WALL_CODE};

verus! {

/// The room lies inside a `width` x `height` canvas.
pub open spec fn fits(room: Room, width: int, height: int) -> bool {
    room.position.x + room.width <= width && room.position.y + room.height <= height
}

/// Every room is well formed and lies inside the canvas.
pub open spec fn rooms_fit(rooms: Seq<Room>, width: int, height: int) -> bool {
    forall|i: int| 0 <= i < rooms.len() ==> (#[trigger] rooms[i]).wf() && fits(rooms[i], width, height)
}

/// The canvas cell (x, y) belongs to the room's footprint.
pub open spec fn covers(room: Room, x: int, y: int) -> bool {
    room.position.x <= x < room.position.x + room.width && room.position.y <= y < room.position.y
        + room.height
}

/// The code at (x, y) once the first `k` rooms are drawn in order on a wall canvas:
/// the last of them whose footprint holds the cell decides it.
pub open spec fn rendered(rooms: Seq<Room>, k: int, x: int, y: int) -> u8
    decreases k,
{
    if k <= 0 {
        WALL_CODE
    } else if covers(rooms[k - 1], x, y) {
        rooms[k - 1].tile(x - rooms[k - 1].position.x, y - rooms[k - 1].position.y).code()
    } else {
        rendered(rooms, k - 1, x, y)
    }
}

/// `map` is `height` rows of `width` codes.
pub open spec fn canvas_shape(map: Seq<Vec<u8>>, width: int, height: int) -> bool {
    &&& map.len() == height
    &&& forall|y: int| 0 <= y < height ==> (#[trigger] map[y])@.len() == width
}

pub open spec fn code_at(map: Seq<Vec<u8>>, p: Position) -> u8 {
    map[p.y as int]@[p.x as int]
}

pub open spec fn in_canvas(p: Position, width: int, height: int) -> bool {
    p.x < width && p.y < height
}

/// Every code of the canvas is a wall, floor or door code.
pub open spec fn codes_valid(map: Seq<Vec<u8>>, width: int, height: int) -> bool {
    forall|y: int, x: int| 0 <= y < height && 0 <= x < width ==> #[trigger] map[y]@[x] <= 2
}

proof fn lemma_rendered_valid(rooms: Seq<Room>, k: int, x: int, y: int)
    ensures
        rendered(rooms, k, x, y) <= 2,
    decreases k,
{
    if k > 0 && !covers(rooms[k - 1], x, y) {
        lemma_rendered_valid(rooms, k - 1, x, y);
    }
}

/// A `width` x `height` canvas of walls.
pub fn blank_canvas(width: usize, height: usize) -> (map: Vec<Vec<u8>>)
    ensures
        canvas_shape(map@, width as int, height as int),
        forall|y: int, x: int|
            0 <= y < height && 0 <= x < width ==> #[trigger] map@[y]@[x] == WALL_CODE,
{
    let mut map: Vec<Vec<u8>> = Vec::new();
    let mut y: usize = 0;
    while y < height
        invariant
            y <= height,
            map@.len() == y,
            forall|j: int| 0 <= j < y ==> (#[trigger] map@[j])@.len() == width,
            forall|j: int, x: int| 0 <= j < y && 0 <= x < width ==> #[trigger] map@[j]@[x] == WALL_CODE,
        decreases height - y,
    {
        let mut row: Vec<u8> = Vec::new();
        let mut x: usize = 0;
        while x < width
            invariant
                x <= width,
                row@.len() == x,
                forall|i: int| 0 <= i < x ==> #[trigger] row@[i] == WALL_CODE,
            decreases width - x,
        {
            row.push(WALL_CODE);
            x += 1;
        }
        map.push(row);
        y += 1;
    }
    map
}

/// Draws the rooms in order on a wall canvas; a later room overwrites an earlier
/// one where their footprints meet.
pub fn render_canvas(rooms: &Vec<Room>, width: usize, height: usize) -> (map: Vec<Vec<u8>>)
    requires
        rooms_fit(rooms@, width as int, height as int),
    ensures
        canvas_shape(map@, width as int, height as int),
        codes_valid(map@, width as int, height as int),
        forall|y: int, x: int|
            0 <= y < height && 0 <= x < width ==> #[trigger] map@[y]@[x] == rendered(
                rooms@,
                rooms@.len() as int,
                x,
                y,
            ),
{
    let mut map = blank_canvas(width, height);
    let mut k: usize = 0;
    while k < rooms.len()
        invariant
            k <= rooms@.len(),
            rooms_fit(rooms@, width as int, height as int),
            canvas_shape(map@, width as int, height as int),
            forall|y: int, x: int|
                0 <= y < height && 0 <= x < width ==> #[trigger] map@[y]@[x] == rendered(
                    rooms@,
                    k as int,
                    x,
                    y,
                ),
        decreases rooms@.len() - k,
    {
        let room = &rooms[k];
        assert(room.wf() && fits(*room, width as int, height as int));
        let px = room.position.x;
        let py = room.position.y;
        let mut r: usize = 0;
        while r < room.height
            invariant
                room.wf(),
                *room == rooms@[k as int],
                k < rooms@.len(),
                fits(*room, width as int, height as int),
                px == room.position.x,
                py == room.position.y,
                r <= room.height,
                canvas_shape(map@, width as int, height as int),
                forall|y: int, x: int|
                    0 <= y < height && 0 <= x < width ==> #[trigger] map@[y]@[x] == if covers(
                        *room,
                        x,
                        y,
                    ) && y - py < r {
                        room.tile(x - px, y - py).code()
                    } else {
                        rendered(rooms@, k as int, x, y)
                    },
            decreases room.height - r,
        {
            let mut c: usize = 0;
            while c < room.width
                invariant
                    room.wf(),
                    *room == rooms@[k as int],
                    k < rooms@.len(),
                    fits(*room, width as int, height as int),
                    px == room.position.x,
                    py == room.position.y,
                    r < room.height,
                    c <= room.width,
                    canvas_shape(map@, width as int, height as int),
                    forall|y: int, x: int|
                        0 <= y < height && 0 <= x < width ==> #[trigger] map@[y]@[x] == if covers(
                            *room,
                            x,
                            y,
                        ) && (y - py < r || (y - py == r && x - px < c)) {
                            room.tile(x - px, y - py).code()
                        } else {
                            rendered(rooms@, k as int, x, y)
                        },
                decreases room.width - c,
            {
                let code = room.tiles[r][c].to_code();
                map[py + r][px + c] = code;
                c += 1;
            }
            r += 1;
        }
        k += 1;
    }
    proof {
        assert forall|y: int, x: int| 0 <= y < height && 0 <= x < width implies #[trigger] map@[y]@[x]
            <= 2 by {
            lemma_rendered_valid(rooms@, rooms@.len() as int, x, y);
        }
    }
    map
}

/// Room `i` has connector `a`, a later room `j` has connector `b`, and the two are
/// orthogonal neighbours.
pub open spec fn linked_by(rooms: Seq<Room>, i: int, j: int, a: Position, b: Position) -> bool {
    &&& 0 <= i < j < rooms.len()
    &&& rooms[i].global_connections().contains(a)
    &&& rooms[j].global_connections().contains(b)
    &&& orthogonally_adjacent(a, b)
}

/// Connector `a` of one room touches connector `b` of a later room.
pub open spec fn linked(rooms: Seq<Room>, a: Position, b: Position) -> bool {
    exists|i: int, j: int| linked_by(rooms, i, j, a, b)
}

/// The cell holds a connector that touches one of another room.
pub open spec fn door_cell(rooms: Seq<Room>, p: Position) -> bool {
    exists|q: Position| linked(rooms, p, q) || linked(rooms, q, p)
}

/// The pairs `(a, c)` for the first `n` connectors `c` of `cs` that touch `a`, in order.
pub open spec fn pairs_with(a: Position, cs: Seq<Position>, n: int) -> Seq<(Position, Position)>
    decreases n,
{
    if n <= 0 {
        Seq::empty()
    } else {
        let pre = pairs_with(a, cs, n - 1);
        if orthogonally_adjacent(a, cs[n - 1]) {
            pre.push((a, cs[n - 1]))
        } else {
            pre
        }
    }
}

/// Touching pairs for the first `m` connectors of `c1` against all of `c2`, with
/// `c1` in the outer loop and `c2` in the inner one.
pub open spec fn all_pairs(c1: Seq<Position>, c2: Seq<Position>, m: int) -> Seq<(Position, Position)>
    decreases m,
{
    if m <= 0 {
        Seq::empty()
    } else {
        all_pairs(c1, c2, m - 1) + pairs_with(c1[m - 1], c2, c2.len() as int)
    }
}

/// Pairs of touching connectors, one of each room, in the order the rooms' lists give.
pub fn find_connection_points(room1: &Room, room2: &Room) -> (r: Vec<(Position, Position)>)
    requires
        room1.wf(),
        room2.wf(),
        room1.placeable(),
        room2.placeable(),
    ensures
        forall|k: int|
            0 <= k < r@.len() ==> room1.global_connections().contains((#[trigger] r@[k]).0)
                && room2.global_connections().contains(r@[k].1) && orthogonally_adjacent(
                r@[k].0,
                r@[k].1,
            ),
        forall|a: Position, b: Position|
            room1.global_connections().contains(a) && room2.global_connections().contains(b)
                && #[trigger] orthogonally_adjacent(a, b) ==> r@.contains((a, b)),
        r@ == all_pairs(
            room1.global_connections(),
            room2.global_connections(),
            room1.global_connections().len() as int,
        ),
{
    let c1 = room1.get_global_connections();
    let c2 = room2.get_global_connections();
    let mut out: Vec<(Position, Position)> = Vec::new();
    let mut i: usize = 0;
    while i < c1.len()
        invariant
            i <= c1@.len(),
            c1@ == room1.global_connections(),
            c2@ == room2.global_connections(),
            out@ == all_pairs(c1@, c2@, i as int),
            forall|k: int|
                0 <= k < out@.len() ==> c1@.contains((#[trigger] out@[k]).0) && c2@.contains(
                    out@[k].1,
                ) && orthogonally_adjacent(out@[k].0, out@[k].1),
            forall|ia: int, ib: int|
                0 <= ia < i && 0 <= ib < c2@.len() && #[trigger] orthogonally_adjacent(
                    c1@[ia],
                    c2@[ib],
                ) ==> out@.contains((c1@[ia], c2@[ib])),
        decreases c1@.len() - i,
    {
        let mut j: usize = 0;
        while j < c2.len()
            invariant
                i < c1@.len(),
                j <= c2@.len(),
                c1@ == room1.global_connections(),
                c2@ == room2.global_connections(),
                out@ == all_pairs(c1@, c2@, i as int) + pairs_with(c1@[i as int], c2@, j as int),
                forall|k: int|
                    0 <= k < out@.len() ==> c1@.contains((#[trigger] out@[k]).0) && c2@.contains(
                        out@[k].1,
                    ) && orthogonally_adjacent(out@[k].0, out@[k].1),
                forall|ia: int, ib: int|
                    (0 <= ia < i && 0 <= ib < c2@.len() || ia == i && 0 <= ib < j)
                        && #[trigger] orthogonally_adjacent(c1@[ia], c2@[ib]) ==> out@.contains(
                        (c1@[ia], c2@[ib]),
                    ),
            decreases c2@.len() - j,
        {
            let a = c1[i];
            let b = c2[j];
            if is_adjacent(a, b) {
                let ghost before = out@;
                out.push((a, b));
                proof {
                    assert(out@ =~= all_pairs(c1@, c2@, i as int) + pairs_with(
                        c1@[i as int],
                        c2@,
                        j + 1,
                    ));
                    assert(out@[out@.len() - 1] == (a, b));
                    assert forall|ia: int, ib: int|
                        (0 <= ia < i && 0 <= ib < c2@.len() || ia == i && 0 <= ib < j + 1)
                            && #[trigger] orthogonally_adjacent(c1@[ia], c2@[ib]) implies out@.contains(
                        (c1@[ia], c2@[ib]),
                    ) by {
                        if ia == i && ib == j {
                        } else {
                            let w = choose|w: int| 0 <= w < before.len() && before[w] == (c1@[ia], c2@[ib]);
                            assert(out@[w] == before[w]);
                        }
                    }
                }
            }
            j += 1;
        }
        assert(out@ =~= all_pairs(c1@, c2@, i + 1));
        i += 1;
    }
    proof {
        assert forall|a: Position, b: Position|
            room1.global_connections().contains(a) && room2.global_connections().contains(b)
                && #[trigger] orthogonally_adjacent(a, b) implies out@.contains((a, b)) by {
            let ia = choose|ia: int| 0 <= ia < c1@.len() && c1@[ia] == a;
            let ib = choose|ib: int| 0 <= ib < c2@.len() && c2@[ib] == b;
            assert(orthogonally_adjacent(c1@[ia], c2@[ib]));
        }
    }
    out
}

/// Every pair of touching connectors between two rooms, over all pairs of rooms.
pub fn find_all_links(rooms: &Vec<Room>, width: usize, height: usize) -> (r: Vec<(Position, Position)>)
    requires
        rooms_fit(rooms@, width as int, height as int),
    ensures
        forall|k: int| 0 <= k < r@.len() ==> linked(rooms@, (#[trigger] r@[k]).0, r@[k].1),
        forall|a: Position, b: Position| #[trigger] linked(rooms@, a, b) ==> r@.contains((a, b)),
{
    let mut out: Vec<(Position, Position)> = Vec::new();
    let n = rooms.len();
    let mut i: usize = 0;
    while i < n
        invariant
            n == rooms@.len(),
            i <= n,
            rooms_fit(rooms@, width as int, height as int),
            forall|k: int| 0 <= k < out@.len() ==> linked(rooms@, (#[trigger] out@[k]).0, out@[k].1),
            forall|ia: int, ib: int, a: Position, b: Position|
                ia < i && #[trigger] linked_by(rooms@, ia, ib, a, b) ==> out@.contains((a, b)),
        decreases n - i,
    {
        let mut j: usize = i + 1;
        while j < n
            invariant
                n == rooms@.len(),
                i < n,
                i + 1 <= j <= n,
                rooms_fit(rooms@, width as int, height as int),
                forall|k: int|
                    0 <= k < out@.len() ==> linked(rooms@, (#[trigger] out@[k]).0, out@[k].1),
                forall|ia: int, ib: int, a: Position, b: Position|
                    (ia < i || ia == i && ib < j) && #[trigger] linked_by(rooms@, ia, ib, a, b)
                        ==> out@.contains((a, b)),
            decreases n - j,
        {
            assert(rooms@[i as int].wf() && fits(rooms@[i as int], width as int, height as int));
            assert(rooms@[j as int].wf() && fits(rooms@[j as int], width as int, height as int));
            let pairs = find_connection_points(&rooms[i], &rooms[j]);
            let ghost before = out@;
            let mut k: usize = 0;
            while k < pairs.len()
                invariant
                    n == rooms@.len(),
                    i < j < n,
                    k <= pairs@.len(),
                    out@.len() == before.len() + k,
                    forall|t: int| 0 <= t < before.len() ==> out@[t] == before[t],
                    forall|t: int| 0 <= t < k ==> out@[before.len() + t] == pairs@[t],
                    forall|t: int|
                        0 <= t < pairs@.len() ==> rooms@[i as int].global_connections().contains(
                            (#[trigger] pairs@[t]).0,
                        ) && rooms@[j as int].global_connections().contains(pairs@[t].1)
                            && orthogonally_adjacent(pairs@[t].0, pairs@[t].1),
                    forall|t: int|
                        0 <= t < before.len() ==> linked(rooms@, (#[trigger] before[t]).0, before[t].1),
                decreases pairs@.len() - k,
            {
                out.push(pairs[k]);
                k += 1;
            }
            proof {
                assert forall|t: int| 0 <= t < out@.len() implies linked(
                    rooms@,
                    (#[trigger] out@[t]).0,
                    out@[t].1,
                ) by {
                    if t >= before.len() {
                        let u = t - before.len();
                        assert(out@[t] == pairs@[u]);
                        assert(linked_by(rooms@, i as int, j as int, pairs@[u].0, pairs@[u].1));
                    } else {
                        assert(out@[t] == before[t]);
                    }
                }
                assert forall|ia: int, ib: int, a: Position, b: Position|
                    (ia < i || ia == i && ib < j + 1) && #[trigger] linked_by(
                        rooms@,
                        ia,
                        ib,
                        a,
                        b,
                    ) implies out@.contains((a, b)) by {
                    if ia == i && ib == j {
                        assert(pairs@.contains((a, b)));
                        let u = choose|u: int| 0 <= u < pairs@.len() && pairs@[u] == (a, b);
                        assert(out@[before.len() + u] == (a, b));
                    } else {
                        assert(before.contains((a, b)));
                        let u = choose|u: int| 0 <= u < before.len() && before[u] == (a, b);
                        assert(out@[u] == (a, b));
                    }
                }
            }
            j += 1;
        }
        i += 1;
    }
    out
}

/// The cell is an end of one of the pairs.
pub open spec fn link_end(links: Seq<(Position, Position)>, p: Position) -> bool {
    exists|k: int| 0 <= k < links.len() && (links[k].0 == p || links[k].1 == p)
}

/// Turns both ends of every pair into doors; cells off the canvas are skipped.
pub fn apply_doors(map: &mut Vec<Vec<u8>>, links: &Vec<(Position, Position)>, width: usize, height: usize)
    requires
        canvas_shape(old(map)@, width as int, height as int),
    ensures
        canvas_shape(final(map)@, width as int, height as int),
        forall|y: int, x: int|
            0 <= y < height && 0 <= x < width ==> #[trigger] final(map)@[y]@[x] == if link_end(
                links@,
                Position { x: x as usize, y: y as usize },
            ) {
                DOOR_CODE
            } else {
                old(map)@[y]@[x]
            },
{
    let mut k: usize = 0;
    while k < links.len()
        invariant
            k <= links@.len(),
            canvas_shape(map@, width as int, height as int),
            forall|y: int, x: int|
                0 <= y < height && 0 <= x < width ==> #[trigger] map@[y]@[x] == if link_end(
                    links@.take(k as int),
                    Position { x: x as usize, y: y as usize },
                ) {
                    DOOR_CODE
                } else {
                    old(map)@[y]@[x]
                },
        decreases links@.len() - k,
    {
        let (a, b) = links[k];
        if a.x < width && a.y < height {
            map[a.y][a.x] = DOOR_CODE;
        }
        if b.x < width && b.y < height {
            map[b.y][b.x] = DOOR_CODE;
        }
        proof {
            let t = links@.take(k + 1);
            assert forall|y: int, x: int| 0 <= y < height && 0 <= x < width implies #[trigger] map@[y]@[x]
                == if link_end(t, Position { x: x as usize, y: y as usize }) {
                DOOR_CODE
            } else {
                old(map)@[y]@[x]
            } by {
                let p = Position { x: x as usize, y: y as usize };
                if link_end(links@.take(k as int), p) {
                    let w = choose|w: int|
                        0 <= w < k && (links@.take(k as int)[w].0 == p || links@.take(k as int)[w].1
                            == p);
                    assert(t[w] == links@.take(k as int)[w]);
                }
                if link_end(t, p) && !link_end(links@.take(k as int), p) {
                    let w = choose|w: int| 0 <= w < k + 1 && (t[w].0 == p || t[w].1 == p);
                    if w < k {
                        assert(links@.take(k as int)[w] == t[w]);
                    }
                }
                if p == a || p == b {
                    assert(t[k as int] == (a, b));
                }
            }
        }
        k += 1;
    }
    assert(links@.take(links@.len() as int) =~= links@);
}

/// A cell-for-cell copy of a canvas.
pub fn copy_canvas(map: &Vec<Vec<u8>>) -> (r: Vec<Vec<u8>>)
    ensures
        r@.len() == map@.len(),
        forall|y: int| 0 <= y < map@.len() ==> (#[trigger] r@[y])@ == map@[y]@,
{
    let mut out: Vec<Vec<u8>> = Vec::new();
    let mut y: usize = 0;
    while y < map.len()
        invariant
            y <= map@.len(),
            out@.len() == y,
            forall|j: int| 0 <= j < y ==> (#[trigger] out@[j])@ == map@[j]@,
        decreases map@.len() - y,
    {
        let src = &map[y];
        let mut row: Vec<u8> = Vec::new();
        let mut x: usize = 0;
        while x < src.len()
            invariant
                x <= src@.len(),
                row@ == src@.take(x as int),
            decreases src@.len() - x,
        {
            row.push(src[x]);
            x += 1;
        }
        assert(row@ =~= src@);
        out.push(row);
        y += 1;
    }
    out
}

} // verus!
