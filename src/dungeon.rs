use vstd::prelude::*;

use spacetimedb::rand::rngs::StdRng;

use crate::canvas::{
    apply_doors, canvas_shape, code_at, codes_valid, copy_canvas, door_cell, find_all_links, fits,
    in_canvas, link_end, linked, linked_by, render_canvas, rendered, rooms_fit,
};
use crate::error::GenerationError;
use crate::layout::{
    canvas_side, central_side, lemma_cell_fits, lemma_central_fits, lemma_layout_sides, layout_ok,
};
use crate::manager::{lemma_parse_ok, RoomManager};
use crate::rng::{draw_below, seeded_rng};
use crate::parser::{parse_outcome, ParsedRoom};
use crate::room::{
    blank_connections, blank_tile, grown, max_side, placed_from, pos, Room, MIN_ROOM_SIDE,
};
use crate::spawn::{best_of, best_spawn_point, extract_spawn_points, spawn_rule};
use crate::template::{RoomTemplate, RoomType};
use crate::tile::{Position, DOOR_CODE, WALL_CODE};

verus! {

/// A grid cell on the outer ring of the grid.
pub open spec fn is_edge_cell(gx: int, gy: int, gw: int, gh: int) -> bool {
    gx == 0 || gx == gw - 1 || gy == 0 || gy == gh - 1
}

/// A procedural room: walls around a floor, the standard connectors, no spawn
/// markers and no template.
pub open spec fn is_blank_room(r: Room, central: bool) -> bool {
    &&& forall|yy: int, xx: int|
        0 <= yy < r.height && 0 <= xx < r.width ==> #[trigger] r.tile(xx, yy) == blank_tile(
            r.width as int,
            r.height as int,
            xx,
            yy,
        )
    &&& r.connections@ == blank_connections(r.width as int, r.height as int, central)
    &&& r.spawn_points@.len() == 0
    &&& r.template_name is None
}

/// The room is template `t` read and grown to at least `min_w` x `min_h` at (x, y),
/// with its category and central flag then set by the layout.
pub open spec fn relabelled_from(room: Room, t: RoomTemplate, x: int, y: int, min_w: int, min_h: int) -> bool {
    exists|p: ParsedRoom|
        #![trigger parse_outcome(t, Ok(p))]
        parse_outcome(t, Ok(p)) && placed_from(
            Room { is_central: p.is_central, room_type: p.room_type, ..room },
            p,
            x,
            y,
            min_w,
            min_h,
        )
}

/// How the central room came about: from the pinned template whenever one is
/// pinned (and not known missing) and it reads and fits; else from a central
/// template of the catalog, or procedural.
pub open spec fn central_placement(g: DungeonGenerator) -> bool {
    let m = g.central_room_multiplier as int;
    let o = cell_origin(
        g.room_width as int,
        g.room_height as int,
        (g.rooms_wide - m) / 2,
        (g.rooms_high - m) / 2,
    );
    let cw = central_side(m, g.room_width as int);
    let ch = central_side(m, g.room_height as int);
    let ts = g.room_manager.templates@;
    let r = g.rooms@[0];
    &&& g.blank_central ==> is_blank_room(r, true)
    &&& (g.room_manager.central_room matches Some(i) && !g.blank_central && template_fits(
        ts[i as int],
        o.x as int,
        o.y as int,
        cw,
        ch,
        g.width as int,
        g.height as int,
    )) ==> relabelled_from(r, ts[g.room_manager.central_room->Some_0 as int], o.x as int, o.y as int, cw, ch)
    &&& r.template_name is None ==> is_blank_room(r, true)
    &&& r.template_name is Some ==> exists|i: int|
        0 <= i < ts.len() && (ts[i].room_type == RoomType::Central || g.room_manager.central_room
            == Some(i as usize)) && #[trigger] relabelled_from(
            r,
            ts[i],
            o.x as int,
            o.y as int,
            cw,
            ch,
        )
}

/// How the spawn room `r` for cell `cell` came about: from a spawn template of
/// `ts`, or procedural; from a template whenever every spawn template reads and
/// fits there.
pub open spec fn edge_room_ok(
    r: Room,
    ts: Seq<RoomTemplate>,
    rw: int,
    rh: int,
    width: int,
    height: int,
    cell: (usize, usize),
) -> bool {
    let o = cell_origin(rw, rh, cell.0 as int, cell.1 as int);
    &&& r.template_name is Some ==> exists|j: int|
        0 <= j < ts.len() && ts[j].room_type == RoomType::Spawn && #[trigger] relabelled_from(
            r,
            ts[j],
            o.x as int,
            o.y as int,
            rw,
            rh,
        )
    &&& r.template_name is None ==> is_blank_room(r, false)
    &&& ((exists|j: int| 0 <= j < ts.len() && (#[trigger] ts[j]).room_type == RoomType::Spawn) && (
    forall|j: int|
        0 <= j < ts.len() && (#[trigger] ts[j]).room_type == RoomType::Spawn ==> template_fits(
            ts[j],
            o.x as int,
            o.y as int,
            rw,
            rh,
            width,
            height,
        ))) ==> r.template_name is Some
}

/// Setting a procedural room's category or central flag keeps it procedural.
pub proof fn lemma_blank_relabel(built: Room, room: Room, central: bool)
    requires
        is_blank_room(built, central),
        room.tiles == built.tiles,
        room.width == built.width,
        room.height == built.height,
        room.connections == built.connections,
        room.spawn_points == built.spawn_points,
        room.template_name == built.template_name,
    ensures
        is_blank_room(room, central),
{
    assert forall|yy: int, xx: int| 0 <= yy < room.height && 0 <= xx < room.width implies #[trigger] room.tile(
        xx,
        yy,
    ) == blank_tile(room.width as int, room.height as int, xx, yy) by {
        assert(built.tile(xx, yy) == blank_tile(built.width as int, built.height as int, xx, yy));
    }
}

/// How the room `r` for interior cell `cell` came about: from a template of `ts`
/// that is neither spawn nor central, or procedural.
pub open spec fn interior_room_ok(r: Room, ts: Seq<RoomTemplate>, rw: int, rh: int, cell: (usize, usize)) -> bool {
    let o = cell_origin(rw, rh, cell.0 as int, cell.1 as int);
    &&& r.template_name is Some ==> exists|j: int|
        0 <= j < ts.len() && ts[j].room_type != RoomType::Spawn && ts[j].room_type
            != RoomType::Central && #[trigger] relabelled_from(r, ts[j], o.x as int, o.y as int, rw, rh)
    &&& r.template_name is None ==> is_blank_room(r, false)
}

/// Cell `a` comes before cell `b` in row-major order.
pub open spec fn cell_before(a: (usize, usize), b: (usize, usize)) -> bool {
    a.1 < b.1 || (a.1 == b.1 && a.0 < b.0)
}

/// The cells are in strictly increasing row-major order (so none repeats).
pub open spec fn row_major(s: Seq<(usize, usize)>) -> bool {
    forall|i: int, j: int| 0 <= i < j < s.len() ==> cell_before(#[trigger] s[i], #[trigger] s[j])
}

/// `a` and `b` hold the same cells, each once: one is a reordering of the other.
pub open spec fn reordering(a: Seq<(usize, usize)>, b: Seq<(usize, usize)>) -> bool {
    &&& a.len() == b.len()
    &&& a.no_duplicates()
    &&& b.no_duplicates()
    &&& forall|c: (usize, usize)| a.contains(c) <==> b.contains(c)
}

/// The rooms appended to `before`'s, one per cell of `cells` in order, sit at
/// those cells' offsets, and the grid maps each cell to its room; no other grid
/// cell outside `cells` changes.
pub open spec fn cells_placed(
    after: DungeonGenerator,
    before: DungeonGenerator,
    cells: Seq<(usize, usize)>,
) -> bool {
    let start = before.rooms@.len();
    &&& after.rooms@.len() == start + cells.len()
    &&& forall|k: int|
        0 <= k < cells.len() ==> (#[trigger] after.rooms@[start + k]).position == cell_origin(
            after.room_width as int,
            after.room_height as int,
            cells[k].0 as int,
            cells[k].1 as int,
        ) && after.room_grid@[cells[k].1 as int]@[cells[k].0 as int] == Some((start + k) as usize)
            && interior_room_ok(
            after.rooms@[start + k],
            after.room_manager.templates@,
            after.room_width as int,
            after.room_height as int,
            cells[k],
        )
    &&& forall|y: int, x: int|
        0 <= y < after.rooms_high && 0 <= x < after.rooms_wide && !cells.contains(
            (x as usize, y as usize),
        ) ==> #[trigger] after.room_grid@[y]@[x] == before.room_grid@[y]@[x]
}

proof fn lemma_row_major_distinct(s: Seq<(usize, usize)>)
    requires
        row_major(s),
    ensures
        s.no_duplicates(),
{
    assert forall|i: int, j: int| 0 <= i < s.len() && 0 <= j < s.len() && i != j implies s[i]
        != s[j] by {
        if i < j {
            assert(cell_before(s[i], s[j]));
        } else {
            assert(cell_before(s[j], s[i]));
        }
    }
}

/// Canvas offset of grid cell (x, y).
pub open spec fn cell_origin(room_width: int, room_height: int, x: int, y: int) -> Position {
    pos(x * (room_width - 1), y * (room_height - 1))
}

/// Every grid cell outside the central block holds a room at its offset.
pub open spec fn every_cell_filled(g: DungeonGenerator) -> bool {
    forall|x: int, y: int|
        0 <= x < g.rooms_wide && 0 <= y < g.rooms_high && !in_central_block(g, x, y) ==> exists|
            i: int,
        |
            0 <= i < g.rooms@.len() && (#[trigger] g.rooms@[i]).position == cell_origin(g.room_width as int, g.room_height as int, x, y)
}

/// No grid cell is taken yet.
pub open spec fn grid_empty(grid: Seq<Vec<Option<usize>>>, gw: int, gh: int) -> bool {
    forall|y: int, x: int| 0 <= y < gh && 0 <= x < gw ==> (#[trigger] grid[y]@[x]) is None
}

/// Cell (x, y) lies in the block of cells that the central room spans.
pub open spec fn in_central_block(g: DungeonGenerator, x: int, y: int) -> bool {
    let m = g.central_room_multiplier as int;
    let cx = (g.rooms_wide - m) / 2;
    let cy = (g.rooms_high - m) / 2;
    cx <= x < cx + m && cy <= y < cy + m
}

/// What grid cell (x, y) holds once every room is placed: room 0 over the central
/// block; elsewhere the room at that cell's offset, a spawn room on the outer ring.
pub open spec fn cell_ok(g: DungeonGenerator, x: int, y: int, c: Option<usize>) -> bool {
    &&& c is Some
    &&& c->Some_0 < g.rooms@.len()
    &&& cell_ok_at(g, x, y, c->Some_0 as int)
}

/// Room `i` is the one grid cell (x, y) should name.
pub open spec fn cell_ok_at(g: DungeonGenerator, x: int, y: int, i: int) -> bool {
    if in_central_block(g, x, y) {
        i == 0
    } else {
        &&& g.rooms@[i].position == cell_origin(g.room_width as int, g.room_height as int, x, y)
        &&& is_edge_cell(x, y, g.rooms_wide as int, g.rooms_high as int) ==> g.rooms@[i].room_type
            == RoomType::Spawn && edge_room_ok(
            g.rooms@[i],
            g.room_manager.templates@,
            g.room_width as int,
            g.room_height as int,
            g.width as int,
            g.height as int,
            (x as usize, y as usize),
        )
        &&& !is_edge_cell(x, y, g.rooms_wide as int, g.rooms_high as int) ==> interior_room_ok(
            g.rooms@[i],
            g.room_manager.templates@,
            g.room_width as int,
            g.room_height as int,
            (x as usize, y as usize),
        )
    }
}

/// The grid maps every cell to the room placed there (see `cell_ok`).
pub open spec fn grid_consistent(g: DungeonGenerator) -> bool {
    forall|y: int, x: int|
        0 <= y < g.rooms_high && 0 <= x < g.rooms_wide ==> cell_ok(
            g,
            x,
            y,
            #[trigger] g.room_grid@[y]@[x],
        )
}

/// A consistent grid names, for every cell, a room placed there.
pub proof fn lemma_grid_gives_rooms(g: DungeonGenerator)
    requires
        grid_consistent(g),
    ensures
        ring_of_spawn_rooms(g),
        every_cell_filled(g),
{
    assert forall|x: int, y: int|
        0 <= x < g.rooms_wide && 0 <= y < g.rooms_high && !in_central_block(g, x, y) implies exists|
        i: int,
    |
        0 <= i < g.rooms@.len() && (#[trigger] g.rooms@[i]).position == cell_origin(
            g.room_width as int,
            g.room_height as int,
            x,
            y,
        ) by {
        assert(cell_ok(g, x, y, g.room_grid@[y]@[x]));
        let i = g.room_grid@[y]@[x]->Some_0 as int;
        assert(g.rooms@[i].position == cell_origin(g.room_width as int, g.room_height as int, x, y));
    }
    assert forall|x: int, y: int|
        0 <= x < g.rooms_wide && 0 <= y < g.rooms_high && is_edge_cell(
            x,
            y,
            g.rooms_wide as int,
            g.rooms_high as int,
        ) && !in_central_block(g, x, y) implies ((#[trigger] g.room_grid@[y]@[x]) matches Some(i)
        && i < g.rooms@.len() && g.rooms@[i as int].room_type == RoomType::Spawn) by {
        assert(cell_ok(g, x, y, g.room_grid@[y]@[x]));
    }
}

/// Each cell of the outer ring outside the central block maps to a spawn-category room.
pub open spec fn ring_of_spawn_rooms(g: DungeonGenerator) -> bool {
    forall|x: int, y: int|
        0 <= x < g.rooms_wide && 0 <= y < g.rooms_high && is_edge_cell(
            x,
            y,
            g.rooms_wide as int,
            g.rooms_high as int,
        ) && !in_central_block(g, x, y) ==> ((#[trigger] g.room_grid@[y]@[x]) matches Some(i)
            && i < g.rooms@.len() && g.rooms@[i as int].room_type == RoomType::Spawn)
}

/// Every room is at least `rw` x `rh`.
pub open spec fn rooms_at_least(rooms: Seq<Room>, rw: int, rh: int) -> bool {
    forall|i: int| 0 <= i < rooms.len() ==> (#[trigger] rooms[i]).width >= rw && rooms[i].height >= rh
}

/// The first room is the only central one.
pub open spec fn single_central(rooms: Seq<Room>) -> bool {
    &&& rooms.len() >= 1
    &&& rooms[0].is_central
    &&& forall|i: int| 1 <= i < rooms.len() ==> !(#[trigger] rooms[i]).is_central
}

/// Grid occupancy is `gh` rows of `gw` cells, each empty or naming a placed room.
pub open spec fn grid_ok(grid: Seq<Vec<Option<usize>>>, gw: int, gh: int, n: int) -> bool {
    &&& grid.len() == gh
    &&& forall|y: int| 0 <= y < gh ==> (#[trigger] grid[y])@.len() == gw
    &&& forall|y: int, x: int|
        0 <= y < gh && 0 <= x < gw && (#[trigger] grid[y]@[x]) is Some ==> grid[y]@[x]->Some_0 < n
}

/// Seed-driven dungeon layout: a central room, spawn rooms on the outer ring of
/// the grid, and drawn rooms inside, joined by doors where connectors touch.
pub struct DungeonGenerator {
    pub rooms_wide: usize,
    pub rooms_high: usize,
    pub width: usize,
    pub height: usize,
    pub room_width: usize,
    pub room_height: usize,
    pub central_room_multiplier: usize,
    pub map: Vec<Vec<u8>>,
    pub rooms: Vec<Room>,
    pub room_grid: Vec<Vec<Option<usize>>>,
    pub spawn_points: Vec<Position>,
    pub rng: StdRng,
    pub room_manager: RoomManager,
    /// Set when a requested central template was missing: the central room is then procedural.
    pub blank_central: bool,
}

impl DungeonGenerator {
    /// Sizes agree with the grid and the limits.
    pub open spec fn dims_ok(&self) -> bool {
        &&& layout_ok(
            self.rooms_wide as int,
            self.rooms_high as int,
            self.room_width as int,
            self.room_height as int,
            self.central_room_multiplier as int,
        )
        &&& self.room_width >= MIN_ROOM_SIDE
        &&& self.room_height >= MIN_ROOM_SIDE
        &&& self.width == canvas_side(self.rooms_wide as int, self.room_width as int)
        &&& self.height == canvas_side(self.rooms_high as int, self.room_height as int)
    }

    /// The state every phase keeps.
    pub open spec fn wf(&self) -> bool {
        &&& self.dims_ok()
        &&& canvas_shape(self.map@, self.width as int, self.height as int)
        &&& rooms_fit(self.rooms@, self.width as int, self.height as int)
        &&& rooms_at_least(self.rooms@, self.room_width as int, self.room_height as int)
        &&& grid_ok(
            self.room_grid@,
            self.rooms_wide as int,
            self.rooms_high as int,
            self.rooms@.len() as int,
        )
        &&& self.room_manager.wf()
    }

    /// A generator for a grid of `rooms_width` x `rooms_height` cells of rooms of at
    /// least 20 x 20, whose central room spans `central_room_multiplier` cells a side.
    pub fn new(
        rooms_width: usize,
        rooms_height: usize,
        room_width: usize,
        room_height: usize,
        central_room_multiplier: usize,
        seed: u64,
    ) -> (r: Self)
        requires
            layout_ok(
                rooms_width as int,
                rooms_height as int,
                room_width as int,
                room_height as int,
                central_room_multiplier as int,
            ),
        ensures
            r.wf(),
            r.rooms@.len() == 0,
            r.spawn_points@.len() == 0,
            grid_empty(r.room_grid@, r.rooms_wide as int, r.rooms_high as int),
            forall|y: int, x: int|
                0 <= y < r.height && 0 <= x < r.width ==> #[trigger] r.map@[y]@[x] == WALL_CODE,
            r.rooms_wide == rooms_width,
            r.rooms_high == rooms_height,
            r.room_width == max_side(room_width as int, MIN_ROOM_SIDE as int),
            r.room_height == max_side(room_height as int, MIN_ROOM_SIDE as int),
            r.central_room_multiplier == central_room_multiplier,
            r.width == canvas_side(rooms_width as int, r.room_width as int),
            r.height == canvas_side(rooms_height as int, r.room_height as int),
            r.room_manager.central_room is None,
            !r.blank_central,
    {
        DungeonGenerator::build(
            rooms_width,
            rooms_height,
            room_width,
            room_height,
            central_room_multiplier,
            seed,
            RoomManager::for_dungeons(),
        )
    }

    pub(crate) fn build(
        rooms_width: usize,
        rooms_height: usize,
        room_width: usize,
        room_height: usize,
        central_room_multiplier: usize,
        seed: u64,
        room_manager: RoomManager,
    ) -> (r: Self)
        requires
            room_manager.wf(),
            layout_ok(
                rooms_width as int,
                rooms_height as int,
                room_width as int,
                room_height as int,
                central_room_multiplier as int,
            ),
        ensures
            r.wf(),
            r.rooms@.len() == 0,
            r.spawn_points@.len() == 0,
            grid_empty(r.room_grid@, r.rooms_wide as int, r.rooms_high as int),
            forall|y: int, x: int|
                0 <= y < r.height && 0 <= x < r.width ==> #[trigger] r.map@[y]@[x] == WALL_CODE,
            r.rooms_wide == rooms_width,
            r.rooms_high == rooms_height,
            r.room_width == max_side(room_width as int, MIN_ROOM_SIDE as int),
            r.room_height == max_side(room_height as int, MIN_ROOM_SIDE as int),
            r.central_room_multiplier == central_room_multiplier,
            r.width == canvas_side(rooms_width as int, r.room_width as int),
            r.height == canvas_side(rooms_height as int, r.room_height as int),
            r.room_manager == room_manager,
            !r.blank_central,
    {
        let room_width = if room_width >= MIN_ROOM_SIDE {
            room_width
        } else {
            MIN_ROOM_SIDE
        };
        let room_height = if room_height >= MIN_ROOM_SIDE {
            room_height
        } else {
            MIN_ROOM_SIDE
        };
        proof {
            lemma_layout_sides(
                rooms_width as int,
                rooms_height as int,
                room_width as int,
                room_height as int,
                central_room_multiplier as int,
            );
        }
        let width = room_width + (rooms_width - 1) * (room_width - 1);
        let height = room_height + (rooms_height - 1) * (room_height - 1);
        let map = crate::canvas::blank_canvas(width, height);
        let mut room_grid: Vec<Vec<Option<usize>>> = Vec::new();
        let mut gy: usize = 0;
        while gy < rooms_height
            invariant
                gy <= rooms_height,
                room_grid@.len() == gy,
                forall|y: int| 0 <= y < gy ==> (#[trigger] room_grid@[y])@.len() == rooms_width,
                forall|y: int, x: int|
                    0 <= y < gy && 0 <= x < rooms_width ==> (#[trigger] room_grid@[y]@[x]) is None,
            decreases rooms_height - gy,
        {
            let mut row: Vec<Option<usize>> = Vec::new();
            let mut gx: usize = 0;
            while gx < rooms_width
                invariant
                    gx <= rooms_width,
                    row@.len() == gx,
                    forall|x: int| 0 <= x < gx ==> (#[trigger] row@[x]) is None,
                decreases rooms_width - gx,
            {
                row.push(None);
                gx += 1;
            }
            room_grid.push(row);
            gy += 1;
        }
        DungeonGenerator {
            rooms_wide: rooms_width,
            rooms_high: rooms_height,
            width,
            height,
            room_width,
            room_height,
            central_room_multiplier,
            map,
            rooms: Vec::new(),
            room_grid,
            spawn_points: Vec::new(),
            rng: seeded_rng(seed),
            room_manager,
            blank_central: false,
        }
    }

    /// Pins the central room to the central template called `template_name`.
    pub fn set_central_room_template(&mut self, template_name: &str) -> (r: Result<(), GenerationError>)
        requires
            old(self).wf(),
        ensures
            final(self).wf(),
            final(self).rooms == old(self).rooms,
            final(self).map == old(self).map,
            final(self).spawn_points == old(self).spawn_points,
            final(self).blank_central == old(self).blank_central,
            final(self).room_grid == old(self).room_grid,
            same_dims(*final(self), *old(self)),
            r is Ok <==> exists|i: int|
                0 <= i < old(self).room_manager.templates@.len() && (
                #[trigger] old(self).room_manager.templates@[i]).name@ == template_name@
                    && old(self).room_manager.templates@[i].is_central,
            final(self).room_manager.templates == old(self).room_manager.templates,
            r is Ok ==> (final(self).room_manager.central_room matches Some(i)
                && final(self).room_manager.templates@[i as int].name@ == template_name@
                && final(self).room_manager.templates@[i as int].is_central),
            r is Err ==> final(self).room_manager == old(self).room_manager,
    {
        self.room_manager.set_central_room(template_name)
    }

    /// The pinned central template, if any.
    pub fn get_central_room_template(&self) -> (r: Option<&RoomTemplate>)
        requires
            self.wf(),
        ensures
            r is Some <==> self.room_manager.central_room is Some,
            r is Some ==> *r->Some_0 == self.room_manager.templates@[self.room_manager.central_room->Some_0 as int],
    {
        self.room_manager.get_central_room()
    }

    /// Forgets the pinned central template, so that one is drawn at random.
    pub fn clear_central_room_template(&mut self)
        requires
            old(self).wf(),
        ensures
            final(self).wf(),
            final(self).room_manager.central_room is None,
            !final(self).blank_central,
            final(self).room_grid == old(self).room_grid,
            final(self).rooms == old(self).rooms,
            final(self).map == old(self).map,
            final(self).spawn_points == old(self).spawn_points,
            same_dims(*final(self), *old(self)),
    {
        self.room_manager.clear_central_room();
        self.blank_central = false;
    }

    /// Marks the `m` x `m` block of cells at (gx, gy) as held by room `idx`.
    pub(crate) fn mark_block(&mut self, gx: usize, gy: usize, m: usize, idx: usize)
        requires
            old(self).wf(),
            gx + m <= old(self).rooms_wide,
            gy + m <= old(self).rooms_high,
            idx < old(self).rooms@.len(),
        ensures
            final(self).wf(),
            final(self).rooms == old(self).rooms,
            final(self).map == old(self).map,
            final(self).spawn_points == old(self).spawn_points,
            final(self).blank_central == old(self).blank_central,
            final(self).room_manager == old(self).room_manager,
            final(self).room_grid@.len() == old(self).room_grid@.len(),
            forall|y: int, x: int|
                0 <= y < final(self).rooms_high && 0 <= x < final(self).rooms_wide ==> (
                #[trigger] final(self).room_grid@[y]@[x]) == if gy <= y < gy + m && gx <= x < gx
                    + m {
                    Some(idx)
                } else {
                    old(self).room_grid@[y]@[x]
                },
            final(self).rooms_wide == old(self).rooms_wide,
            final(self).rooms_high == old(self).rooms_high,
            final(self).width == old(self).width,
            final(self).height == old(self).height,
            final(self).room_width == old(self).room_width,
            final(self).room_height == old(self).room_height,
            final(self).central_room_multiplier == old(self).central_room_multiplier,
    {
        let mut dy: usize = 0;
        while dy < m
            invariant
                self.wf(),
                dy <= m,
                gx + m <= self.rooms_wide,
                gy + m <= self.rooms_high,
                idx < self.rooms@.len(),
                self.rooms == old(self).rooms,
                self.map == old(self).map,
                self.spawn_points == old(self).spawn_points,
                self.blank_central == old(self).blank_central,
                self.room_manager == old(self).room_manager,
                self.rooms_wide == old(self).rooms_wide,
                self.rooms_high == old(self).rooms_high,
                self.width == old(self).width,
                self.height == old(self).height,
                self.room_width == old(self).room_width,
                self.room_height == old(self).room_height,
                self.central_room_multiplier == old(self).central_room_multiplier,
                forall|y: int, x: int|
                    0 <= y < self.rooms_high && 0 <= x < self.rooms_wide ==> (
                    #[trigger] self.room_grid@[y]@[x]) == if gy <= y < gy + dy && gx <= x < gx
                        + m {
                        Some(idx)
                    } else {
                        old(self).room_grid@[y]@[x]
                    },
            decreases m - dy,
        {
            let mut dx: usize = 0;
            while dx < m
                invariant
                    self.wf(),
                    dy < m,
                    dx <= m,
                    gx + m <= self.rooms_wide,
                    gy + m <= self.rooms_high,
                    idx < self.rooms@.len(),
                    self.rooms == old(self).rooms,
                    self.map == old(self).map,
                    self.spawn_points == old(self).spawn_points,
                    self.blank_central == old(self).blank_central,
                    self.room_manager == old(self).room_manager,
                    self.rooms_wide == old(self).rooms_wide,
                    self.rooms_high == old(self).rooms_high,
                    self.width == old(self).width,
                    self.height == old(self).height,
                    self.room_width == old(self).room_width,
                    self.room_height == old(self).room_height,
                    self.central_room_multiplier == old(self).central_room_multiplier,
                    forall|y: int, x: int|
                        0 <= y < self.rooms_high && 0 <= x < self.rooms_wide ==> (
                        #[trigger] self.room_grid@[y]@[x]) == if (gy <= y < gy + dy && gx <= x < gx
                            + m) || (y == gy + dy && gx <= x < gx + dx) {
                            Some(idx)
                        } else {
                            old(self).room_grid@[y]@[x]
                        },
                decreases m - dx,
            {
                self.room_grid[gy + dy][gx + dx] = Some(idx);
                dx += 1;
            }
            dy += 1;
        }
    }

    /// Phase one: the central room over the middle block of cells.
    fn place_central_room(&mut self)
        requires
            old(self).wf(),
            old(self).rooms@.len() == 0,
            grid_empty(old(self).room_grid@, old(self).rooms_wide as int, old(self).rooms_high as int),
        ensures
            forall|y: int, x: int|
                0 <= y < final(self).rooms_high && 0 <= x < final(self).rooms_wide ==> (
                #[trigger] final(self).room_grid@[y]@[x]) == if in_central_block(
                    *final(self),
                    x,
                    y,
                ) {
                    Some(0usize)
                } else {
                    None
                },
            final(self).rooms@[0].position == cell_origin(
                final(self).room_width as int,
                final(self).room_height as int,
                (final(self).rooms_wide - final(self).central_room_multiplier) / 2,
                (final(self).rooms_high - final(self).central_room_multiplier) / 2,
            ),
            final(self).wf(),
            single_central(final(self).rooms@),
            final(self).rooms@.len() == 1,
            final(self).rooms@[0].room_type == RoomType::Central,
            final(self).rooms@[0].width >= central_side(
                final(self).central_room_multiplier as int,
                final(self).room_width as int,
            ),
            final(self).rooms@[0].height >= central_side(
                final(self).central_room_multiplier as int,
                final(self).room_height as int,
            ),
            final(self).spawn_points == old(self).spawn_points,
            final(self).blank_central == old(self).blank_central,
            final(self).room_manager == old(self).room_manager,
            central_placement(*final(self)),
            same_dims(*final(self), *old(self)),
    {
        let gw = self.rooms_wide;
        let gh = self.rooms_high;
        let m = self.central_room_multiplier;
        let rw = self.room_width;
        let rh = self.room_height;
        let cgx = (gw - m) / 2;
        let cgy = (gh - m) / 2;
        proof {
            lemma_central_fits(cgx as int, m as int, gw as int, rw as int);
            lemma_central_fits(cgy as int, m as int, gh as int, rh as int);
        }
        let cx = cgx * (rw - 1);
        let cy = cgy * (rh - 1);
        let cw = m * (rw - 1) + 1;
        let ch = m * (rh - 1) + 1;
        let ghost ts = self.room_manager.templates@;
        let template: Option<RoomTemplate> = if self.blank_central {
            None
        } else {
            match self.room_manager.get_central_template(&mut self.rng) {
                Some(t) => Some(*t),
                None => None,
            }
        };
        assert(template matches Some(t) ==> exists|i: int|
            0 <= i < ts.len() && ts[i] == t && (ts[i].room_type == RoomType::Central
                || self.room_manager.central_room == Some(i as usize)));
        assert(self.room_manager.central_room is Some && !self.blank_central ==> template == Some(
            ts[self.room_manager.central_room->Some_0 as int],
        ));
        let tried = match template {
            Some(t) => try_template(&self.room_manager, &t, cx, cy, cw, ch, self.width, self.height),
            None => None,
        };
        let built = match tried {
            Some(r) => r,
            None => Room::new(cx, cy, cw, ch, true),
        };
        let mut room = built;
        assert(room.position == pos(cx as int, cy as int));
        room.is_central = true;
        room.room_type = RoomType::Central;
        proof {
            if tried is Some {
                let t = template->Some_0;
                let p = choose|p: ParsedRoom|
                    #![trigger parse_outcome(t, Ok(p))]
                    parse_outcome(t, Ok(p)) && placed_from(built, p, cx as int, cy as int, cw as int, ch as int);
                assert(Room { is_central: p.is_central, room_type: p.room_type, ..room } == built);
                assert(relabelled_from(room, t, cx as int, cy as int, cw as int, ch as int));
            }
        }
        self.rooms.push(room);
        proof {
            assert forall|i: int| 0 <= i < self.rooms@.len() implies (#[trigger] self.rooms@[i]).wf()
                && fits(self.rooms@[i], self.width as int, self.height as int) by {
                assert(self.rooms@[i] == room);
            }
        }
        self.mark_block(cgx, cgy, m, 0);
        proof {
            let ghost o = cell_origin(rw as int, rh as int, cgx as int, cgy as int);
            assert(o == pos(cx as int, cy as int));
            assert(self.rooms@[0] == room);
            assert(self.room_manager.templates@ == ts);
            if tried is Some {
                let t = template->Some_0;
                let i = choose|i: int|
                    0 <= i < ts.len() && ts[i] == t && (ts[i].room_type == RoomType::Central
                        || self.room_manager.central_room == Some(i as usize));
                assert(relabelled_from(room, ts[i], cx as int, cy as int, cw as int, ch as int));
            } else {
                assert(is_blank_room(room, true));
            }
        }
    }

    /// Free cells of the grid, split into those on its outer ring and the rest,
    /// each in row-major order.
    fn collect_available_positions(&self) -> (r: (Vec<(usize, usize)>, Vec<(usize, usize)>))
        requires
            self.wf(),
        ensures
            row_major(r.0@),
            row_major(r.1@),
            forall|k: int|
                0 <= k < r.0@.len() ==> (#[trigger] r.0@[k]).0 < self.rooms_wide && r.0@[k].1
                    < self.rooms_high && is_edge_cell(
                    r.0@[k].0 as int,
                    r.0@[k].1 as int,
                    self.rooms_wide as int,
                    self.rooms_high as int,
                ) && self.room_grid@[r.0@[k].1 as int]@[r.0@[k].0 as int] is None,
            forall|k: int|
                0 <= k < r.1@.len() ==> (#[trigger] r.1@[k]).0 < self.rooms_wide && r.1@[k].1
                    < self.rooms_high && !is_edge_cell(
                    r.1@[k].0 as int,
                    r.1@[k].1 as int,
                    self.rooms_wide as int,
                    self.rooms_high as int,
                ) && self.room_grid@[r.1@[k].1 as int]@[r.1@[k].0 as int] is None,
            forall|x: int, y: int|
                0 <= x < self.rooms_wide && 0 <= y < self.rooms_high && (
                #[trigger] self.room_grid@[y]@[x]) is None ==> if is_edge_cell(
                    x,
                    y,
                    self.rooms_wide as int,
                    self.rooms_high as int,
                ) {
                    r.0@.contains((x as usize, y as usize))
                } else {
                    r.1@.contains((x as usize, y as usize))
                },
    {
        let gw = self.rooms_wide;
        let gh = self.rooms_high;
        let mut edges: Vec<(usize, usize)> = Vec::new();
        let mut inner: Vec<(usize, usize)> = Vec::new();
        let mut gy: usize = 0;
        while gy < gh
            invariant
                self.wf(),
                gw == self.rooms_wide,
                gh == self.rooms_high,
                gy <= gh,
                row_major(edges@),
                row_major(inner@),
                forall|k: int| 0 <= k < edges@.len() ==> (#[trigger] edges@[k]).1 < gy,
                forall|k: int| 0 <= k < inner@.len() ==> (#[trigger] inner@[k]).1 < gy,
                forall|k: int|
                    0 <= k < edges@.len() ==> (#[trigger] edges@[k]).0 < gw && edges@[k].1 < gh
                        && is_edge_cell(edges@[k].0 as int, edges@[k].1 as int, gw as int, gh as int)
                        && self.room_grid@[edges@[k].1 as int]@[edges@[k].0 as int] is None,
                forall|k: int|
                    0 <= k < inner@.len() ==> (#[trigger] inner@[k]).0 < gw && inner@[k].1 < gh
                        && !is_edge_cell(inner@[k].0 as int, inner@[k].1 as int, gw as int, gh as int)
                        && self.room_grid@[inner@[k].1 as int]@[inner@[k].0 as int] is None,
                forall|x: int, y: int|
                    0 <= x < gw && 0 <= y < gy && (#[trigger] self.room_grid@[y]@[x]) is None ==> if is_edge_cell(
                        x,
                        y,
                        gw as int,
                        gh as int,
                    ) {
                        edges@.contains((x as usize, y as usize))
                    } else {
                        inner@.contains((x as usize, y as usize))
                    },
            decreases gh - gy,
        {
            let mut gx: usize = 0;
            while gx < gw
                invariant
                    self.wf(),
                    gw == self.rooms_wide,
                    gh == self.rooms_high,
                    gy < gh,
                    gx <= gw,
                    row_major(edges@),
                    row_major(inner@),
                    forall|k: int|
                        0 <= k < edges@.len() ==> cell_before(#[trigger] edges@[k], (gx, gy)),
                    forall|k: int|
                        0 <= k < inner@.len() ==> cell_before(#[trigger] inner@[k], (gx, gy)),
                    forall|k: int|
                        0 <= k < edges@.len() ==> (#[trigger] edges@[k]).0 < gw && edges@[k].1 < gh
                            && is_edge_cell(edges@[k].0 as int, edges@[k].1 as int, gw as int, gh as int)
                            && self.room_grid@[edges@[k].1 as int]@[edges@[k].0 as int] is None,
                    forall|k: int|
                        0 <= k < inner@.len() ==> (#[trigger] inner@[k]).0 < gw && inner@[k].1 < gh
                            && !is_edge_cell(inner@[k].0 as int, inner@[k].1 as int, gw as int, gh as int)
                            && self.room_grid@[inner@[k].1 as int]@[inner@[k].0 as int] is None,
                    forall|x: int, y: int|
                        0 <= x < gw && (0 <= y < gy || y == gy && x < gx) && (
                        #[trigger] self.room_grid@[y]@[x]) is None ==> if is_edge_cell(
                            x,
                            y,
                            gw as int,
                            gh as int,
                        ) {
                            edges@.contains((x as usize, y as usize))
                        } else {
                            inner@.contains((x as usize, y as usize))
                        },
                decreases gw - gx,
            {
                if self.room_grid[gy][gx].is_none() {
                    let on_edge = gx == 0 || gx == gw - 1 || gy == 0 || gy == gh - 1;
                    if on_edge {
                        let ghost before = edges@;
                        edges.push((gx, gy));
                        proof {
                            assert(edges@[edges@.len() - 1] == (gx, gy));
                            assert forall|i: int, j: int| 0 <= i < j < edges@.len() implies cell_before(
                                #[trigger] edges@[i],
                                #[trigger] edges@[j],
                            ) by {
                                assert(edges@[i] == before[i]);
                                if j < before.len() {
                                    assert(edges@[j] == before[j]);
                                }
                            }
                            assert forall|k: int| 0 <= k < edges@.len() implies cell_before(
                                #[trigger] edges@[k],
                                ((gx + 1) as usize, gy),
                            ) by {
                                if k < before.len() {
                                    assert(edges@[k] == before[k]);
                                }
                            }
                            assert forall|x: int, y: int|
                                0 <= x < gw && (0 <= y < gy || y == gy && x < gx) && (
                                #[trigger] self.room_grid@[y]@[x]) is None && is_edge_cell(
                                    x,
                                    y,
                                    gw as int,
                                    gh as int,
                                ) implies edges@.contains((x as usize, y as usize)) by {
                                let u = choose|u: int|
                                    0 <= u < before.len() && before[u] == (x as usize, y as usize);
                                assert(edges@[u] == before[u]);
                            }
                        }
                    } else {
                        let ghost before = inner@;
                        inner.push((gx, gy));
                        proof {
                            assert(inner@[inner@.len() - 1] == (gx, gy));
                            assert forall|i: int, j: int| 0 <= i < j < inner@.len() implies cell_before(
                                #[trigger] inner@[i],
                                #[trigger] inner@[j],
                            ) by {
                                assert(inner@[i] == before[i]);
                                if j < before.len() {
                                    assert(inner@[j] == before[j]);
                                }
                            }
                            assert forall|k: int| 0 <= k < inner@.len() implies cell_before(
                                #[trigger] inner@[k],
                                ((gx + 1) as usize, gy),
                            ) by {
                                if k < before.len() {
                                    assert(inner@[k] == before[k]);
                                }
                            }
                            assert forall|x: int, y: int|
                                0 <= x < gw && (0 <= y < gy || y == gy && x < gx) && (
                                #[trigger] self.room_grid@[y]@[x]) is None && !is_edge_cell(
                                    x,
                                    y,
                                    gw as int,
                                    gh as int,
                                ) implies inner@.contains((x as usize, y as usize)) by {
                                let u = choose|u: int|
                                    0 <= u < before.len() && before[u] == (x as usize, y as usize);
                                assert(inner@[u] == before[u]);
                            }
                        }
                    }
                }
                gx += 1;
            }
            gy += 1;
        }
        (edges, inner)
    }

    /// Places `room` in grid cell (gx, gy) as the next room.
    pub(crate) fn push_cell_room(&mut self, room: Room, gx: usize, gy: usize)
        requires
            old(self).wf(),
            single_central(old(self).rooms@),
            gx < old(self).rooms_wide,
            gy < old(self).rooms_high,
            room.wf(),
            fits(room, old(self).width as int, old(self).height as int),
            room.width >= old(self).room_width,
            room.height >= old(self).room_height,
            !room.is_central,
        ensures
            final(self).wf(),
            single_central(final(self).rooms@),
            final(self).rooms@ == old(self).rooms@.push(room),
            final(self).spawn_points == old(self).spawn_points,
            final(self).blank_central == old(self).blank_central,
            same_dims(*final(self), *old(self)),
            final(self).room_grid@[gy as int]@[gx as int] == Some(old(self).rooms@.len() as usize),
            final(self).room_manager == old(self).room_manager,
            forall|y: int, x: int|
                0 <= y < final(self).rooms_high && 0 <= x < final(self).rooms_wide && !(x == gx
                    && y == gy) ==> #[trigger] final(self).room_grid@[y]@[x] == old(
                    self,
                ).room_grid@[y]@[x],
    {
        self.rooms.push(room);
        let idx = self.rooms.len() - 1;
        proof {
            assert forall|i: int| 0 <= i < self.rooms@.len() implies (#[trigger] self.rooms@[i]).wf()
                && fits(self.rooms@[i], self.width as int, self.height as int) by {
                if i < old(self).rooms@.len() {
                    assert(self.rooms@[i] == old(self).rooms@[i]);
                }
            }
            assert forall|i: int| 1 <= i < self.rooms@.len() implies !(
            #[trigger] self.rooms@[i]).is_central by {
                if i < old(self).rooms@.len() {
                    assert(self.rooms@[i] == old(self).rooms@[i]);
                }
            }
            assert(rooms_at_least(self.rooms@, self.room_width as int, self.room_height as int)) by {
                assert forall|i: int| 0 <= i < self.rooms@.len() implies (
                #[trigger] self.rooms@[i]).width >= self.room_width && self.rooms@[i].height
                    >= self.room_height by {
                    if i < old(self).rooms@.len() {
                        assert(self.rooms@[i] == old(self).rooms@[i]);
                    }
                }
            }
        }
        self.mark_block(gx, gy, 1, idx);
    }

    /// Phase two: a spawn room in each free cell of the outer ring. A drawn spawn
    /// template is used when it reads and fits; else a procedural room. Either way
    /// the room is labelled spawn.
    fn place_edge_spawn_rooms(&mut self, edge_positions: &Vec<(usize, usize)>)
        requires
            old(self).wf(),
            single_central(old(self).rooms@),
            edge_positions@.no_duplicates(),
            forall|k: int|
                0 <= k < edge_positions@.len() ==> (#[trigger] edge_positions@[k]).0
                    < old(self).rooms_wide && edge_positions@[k].1 < old(self).rooms_high,
        ensures
            final(self).wf(),
            single_central(final(self).rooms@),
            final(self).rooms@.len() == old(self).rooms@.len() + edge_positions@.len(),
            final(self).room_manager == old(self).room_manager,
            forall|k: int|
                0 <= k < edge_positions@.len() ==> edge_room_ok(
                    #[trigger] final(self).rooms@[old(self).rooms@.len() + k],
                    final(self).room_manager.templates@,
                    final(self).room_width as int,
                    final(self).room_height as int,
                    final(self).width as int,
                    final(self).height as int,
                    edge_positions@[k],
                ),
            forall|i: int| 0 <= i < old(self).rooms@.len() ==> final(self).rooms@[i] == old(self).rooms@[i],
            forall|k: int|
                0 <= k < edge_positions@.len() ==> (#[trigger] final(self).rooms@[old(self).rooms@.len() + k]).room_type == RoomType::Spawn
                    && final(self).rooms@[old(self).rooms@.len() + k].position == pos(
                    edge_positions@[k].0 * (final(self).room_width - 1),
                    edge_positions@[k].1 * (final(self).room_height - 1),
                ),
            forall|k: int|
                0 <= k < edge_positions@.len() ==> final(self).room_grid@[(
                #[trigger] edge_positions@[k]).1 as int]@[edge_positions@[k].0 as int] == Some(
                    (old(self).rooms@.len() + k) as usize,
                ),
            forall|y: int, x: int|
                0 <= y < final(self).rooms_high && 0 <= x < final(self).rooms_wide && (forall|t: int|
                    0 <= t < edge_positions@.len() ==> #[trigger] edge_positions@[t] != (
                        x as usize,
                        y as usize,
                    )) ==> #[trigger] final(self).room_grid@[y]@[x] == old(self).room_grid@[y]@[x],
            final(self).spawn_points == old(self).spawn_points,
            final(self).blank_central == old(self).blank_central,
            same_dims(*final(self), *old(self)),
    {
        let ghost start = self.rooms@.len();
        let mut k: usize = 0;
        while k < edge_positions.len()
            invariant
                self.wf(),
                single_central(self.rooms@),
                same_dims(*self, *old(self)),
                self.spawn_points == old(self).spawn_points,
                self.blank_central == old(self).blank_central,
                start == old(self).rooms@.len(),
                k <= edge_positions@.len(),
                self.rooms@.len() == start + k,
                forall|i: int| 0 <= i < start ==> self.rooms@[i] == old(self).rooms@[i],
                forall|t: int|
                    0 <= t < k ==> (#[trigger] self.rooms@[start + t]).room_type == RoomType::Spawn
                        && self.rooms@[start + t].position == pos(
                        edge_positions@[t].0 * (self.room_width - 1),
                        edge_positions@[t].1 * (self.room_height - 1),
                    ),
                forall|t: int|
                    0 <= t < edge_positions@.len() ==> (#[trigger] edge_positions@[t]).0
                        < self.rooms_wide && edge_positions@[t].1 < self.rooms_high,
                edge_positions@.no_duplicates(),
                self.room_manager == old(self).room_manager,
                forall|t: int|
                    0 <= t < k ==> edge_room_ok(
                        #[trigger] self.rooms@[start + t],
                        self.room_manager.templates@,
                        self.room_width as int,
                        self.room_height as int,
                        self.width as int,
                        self.height as int,
                        edge_positions@[t],
                    ),
                forall|t: int|
                    0 <= t < k ==> self.room_grid@[(#[trigger] edge_positions@[t]).1 as int]@[edge_positions@[t].0 as int]
                        == Some((start + t) as usize),
                forall|y: int, x: int|
                    0 <= y < self.rooms_high && 0 <= x < self.rooms_wide && (forall|t: int|
                        0 <= t < k ==> #[trigger] edge_positions@[t] != (x as usize, y as usize))
                        ==> #[trigger] self.room_grid@[y]@[x] == old(self).room_grid@[y]@[x],
            decreases edge_positions@.len() - k,
        {
            let (gx, gy) = edge_positions[k];
            let rw = self.room_width;
            let rh = self.room_height;
            proof {
                lemma_cell_fits(gx as int, self.rooms_wide as int, rw as int);
                lemma_cell_fits(gy as int, self.rooms_high as int, rh as int);
            }
            let x = gx * (rw - 1);
            let y = gy * (rh - 1);
            let template: Option<RoomTemplate> = match self.room_manager.get_random_template_by_type(
                &mut self.rng,
                RoomType::Spawn,
            ) {
                Some(t) => Some(*t),
                None => None,
            };
            let ghost ts = self.room_manager.templates@;
            let tried = match template {
                Some(t) => try_template(&self.room_manager, &t, x, y, rw, rh, self.width, self.height),
                None => None,
            };
            let built = match tried {
                Some(r) => r,
                None => Room::new(x, y, rw, rh, false),
            };
            let mut room = built;
            room.room_type = RoomType::Spawn;
            room.is_central = false;
            proof {
                assert(pos(x as int, y as int) == cell_origin(rw as int, rh as int, gx as int, gy as int));
                if tried is Some {
                    let t = template->Some_0;
                    let j = choose|j: int| 0 <= j < ts.len() && ts[j] == t;
                    let p = choose|p: ParsedRoom|
                        #![trigger parse_outcome(t, Ok(p))]
                        parse_outcome(t, Ok(p)) && placed_from(built, p, x as int, y as int, rw as int, rh as int);
                    assert(Room { is_central: p.is_central, room_type: p.room_type, ..room } == built);
                    assert(relabelled_from(room, ts[j], x as int, y as int, rw as int, rh as int));
                } else {
                    assert(is_blank_room(built, false));
                    lemma_blank_relabel(built, room, false);
                    if (exists|j: int| 0 <= j < ts.len() && (#[trigger] ts[j]).room_type == RoomType::Spawn) {
                        assert(template is Some);
                        let t = template->Some_0;
                        let j = choose|j: int| 0 <= j < ts.len() && ts[j] == t;
                        assert(ts[j].room_type == RoomType::Spawn);
                        assert(!template_fits(
                            ts[j],
                            x as int,
                            y as int,
                            rw as int,
                            rh as int,
                            self.width as int,
                            self.height as int,
                        ));
                    }
                }
                assert(edge_room_ok(room, ts, rw as int, rh as int, self.width as int, self.height as int, (gx, gy)));
            }
            let ghost before = self.rooms@;
            let ghost grid_before = self.room_grid@;
            self.push_cell_room(room, gx, gy);
            proof {
                assert forall|t: int| 0 <= t < k + 1 implies edge_room_ok(
                    #[trigger] self.rooms@[start + t],
                    self.room_manager.templates@,
                    self.room_width as int,
                    self.room_height as int,
                    self.width as int,
                    self.height as int,
                    edge_positions@[t],
                ) by {
                    if t < k {
                        assert(self.rooms@[start + t] == before[start + t]);
                    } else {
                        assert(self.rooms@[start + t] == room);
                    }
                }
                assert forall|t: int| 0 <= t < k + 1 implies self.room_grid@[(
                #[trigger] edge_positions@[t]).1 as int]@[edge_positions@[t].0 as int] == Some(
                    (start + t) as usize,
                ) by {
                    if t < k {
                        assert(edge_positions@[t] != edge_positions@[k as int]);
                        assert(grid_before[edge_positions@[t].1 as int]@[edge_positions@[t].0 as int]
                            == Some((start + t) as usize));
                    }
                }
                assert forall|yy: int, xx: int|
                    0 <= yy < self.rooms_high && 0 <= xx < self.rooms_wide && (forall|t: int|
                        0 <= t < k + 1 ==> #[trigger] edge_positions@[t] != (xx as usize, yy as usize))
                        implies #[trigger] self.room_grid@[yy]@[xx] == old(self).room_grid@[yy]@[xx] by {
                    assert(edge_positions@[k as int] != (xx as usize, yy as usize));
                    assert(grid_before[yy]@[xx] == old(self).room_grid@[yy]@[xx]);
                }
                assert forall|t: int| 0 <= t < k + 1 implies (#[trigger] self.rooms@[start + t]).room_type
                    == RoomType::Spawn && self.rooms@[start + t].position == pos(
                    edge_positions@[t].0 * (self.room_width - 1),
                    edge_positions@[t].1 * (self.room_height - 1),
                ) by {
                    if t < k {
                        assert(self.rooms@[start + t] == before[start + t]);
                    }
                }
            }
            k += 1;
        }
    }

    /// Phase three: the remaining cells, in an order shuffled by the generator, each
    /// get a drawn template that is neither spawn nor central and fits, with up to
    /// ten draws; else a procedural room.
    fn place_interior_rooms(&mut self, interior_positions: &Vec<(usize, usize)>)
        requires
            old(self).wf(),
            single_central(old(self).rooms@),
            interior_positions@.no_duplicates(),
            forall|k: int|
                0 <= k < interior_positions@.len() ==> (#[trigger] interior_positions@[k]).0
                    < old(self).rooms_wide && interior_positions@[k].1 < old(self).rooms_high,
        ensures
            final(self).wf(),
            single_central(final(self).rooms@),
            final(self).rooms@.len() == old(self).rooms@.len() + interior_positions@.len(),
            final(self).room_manager == old(self).room_manager,
            forall|i: int| 0 <= i < old(self).rooms@.len() ==> final(self).rooms@[i] == old(self).rooms@[i],
            forall|t: int|
                0 <= t < interior_positions@.len() ==> exists|i: int|
                    0 <= i < final(self).rooms@.len() && (#[trigger] final(self).rooms@[i]).position
                        == cell_origin(final(self).room_width as int, final(self).room_height as int,
                        (#[trigger] interior_positions@[t]).0 as int,
                        interior_positions@[t].1 as int,
                    ),
            forall|t: int|
                0 <= t < interior_positions@.len() ==> (#[trigger] final(self).rooms@[old(
                    self,
                ).rooms@.len() + t]).room_type != RoomType::Spawn && !final(self).rooms@[old(
                    self,
                ).rooms@.len() + t].is_central,
            exists|cells: Seq<(usize, usize)>|
                reordering(cells, interior_positions@) && #[trigger] cells_placed(
                    *final(self),
                    *old(self),
                    cells,
                ),
            final(self).spawn_points == old(self).spawn_points,
            final(self).blank_central == old(self).blank_central,
            same_dims(*final(self), *old(self)),
    {
        let mut order: Vec<(usize, usize)> = Vec::new();
        let mut c: usize = 0;
        while c < interior_positions.len()
            invariant
                c <= interior_positions@.len(),
                order@ == interior_positions@.take(c as int),
            decreases interior_positions@.len() - c,
        {
            order.push(interior_positions[c]);
            c += 1;
        }
        assert(order@ =~= interior_positions@);
        let n = order.len();
        let mut i: usize = n;
        while i > 1
            invariant
                self.wf(),
                single_central(self.rooms@),
                same_dims(*self, *old(self)),
                self.rooms == old(self).rooms,
                self.spawn_points == old(self).spawn_points,
                self.blank_central == old(self).blank_central,
                i <= n,
                order@.len() == n,
                n == interior_positions@.len(),
                forall|k: int|
                    0 <= k < n ==> (#[trigger] order@[k]).0 < self.rooms_wide && order@[k].1
                        < self.rooms_high,
                forall|t: int|
                    0 <= t < n ==> order@.contains(#[trigger] interior_positions@[t]),
                forall|t: int| 0 <= t < n ==> interior_positions@.contains(#[trigger] order@[t]),
                order@.no_duplicates(),
                self.room_grid == old(self).room_grid,
                self.room_manager == old(self).room_manager,
            decreases i,
        {
            let last = i - 1;
            let j = draw_below(&mut self.rng, i as u64) as usize;
            let a = order[last];
            let b = order[j];
            let ghost prev = order@;
            order.set(last, b);
            order.set(j, a);
            proof {
                assert forall|t: int| 0 <= t < n implies order@.contains(
                    #[trigger] interior_positions@[t],
                ) by {
                    let e = interior_positions@[t];
                    let u = choose|u: int| 0 <= u < prev.len() && prev[u] == e;
                    if u == last {
                        assert(order@[j as int] == e);
                    } else if u == j {
                        assert(order@[last as int] == e);
                    } else {
                        assert(order@[u] == e);
                    }
                }
                assert forall|t: int| 0 <= t < n implies interior_positions@.contains(
                    #[trigger] order@[t],
                ) by {
                    let st = if t == last as int {
                        j as int
                    } else if t == j as int {
                        last as int
                    } else {
                        t
                    };
                    assert(order@[t] == prev[st]);
                }
                assert forall|p: int, q: int| 0 <= p < n && 0 <= q < n && p != q implies order@[p]
                    != order@[q] by {
                    let sp = if p == last as int {
                        j as int
                    } else if p == j as int {
                        last as int
                    } else {
                        p
                    };
                    let sq = if q == last as int {
                        j as int
                    } else if q == j as int {
                        last as int
                    } else {
                        q
                    };
                    assert(order@[p] == prev[sp]);
                    assert(order@[q] == prev[sq]);
                }
            }
            i -= 1;
        }
        let ghost start = self.rooms@.len();
        let mut k: usize = 0;
        while k < n
            invariant
                self.wf(),
                single_central(self.rooms@),
                same_dims(*self, *old(self)),
                self.spawn_points == old(self).spawn_points,
                self.blank_central == old(self).blank_central,
                start == old(self).rooms@.len(),
                k <= n,
                order@.len() == n,
                n == interior_positions@.len(),
                self.rooms@.len() == start + k,
                forall|t: int| 0 <= t < start ==> self.rooms@[t] == old(self).rooms@[t],
                forall|t: int|
                    0 <= t < n ==> (#[trigger] order@[t]).0 < self.rooms_wide && order@[t].1
                        < self.rooms_high,
                forall|t: int|
                    0 <= t < k ==> (#[trigger] self.rooms@[start + t]).position == cell_origin(self.room_width as int, self.room_height as int,
                        order@[t].0 as int,
                        order@[t].1 as int,
                    ),
                forall|t: int| 0 <= t < n ==> order@.contains(#[trigger] interior_positions@[t]),
                forall|t: int| 0 <= t < n ==> interior_positions@.contains(#[trigger] order@[t]),
                order@.no_duplicates(),
                forall|t: int|
                    0 <= t < k ==> (#[trigger] self.rooms@[start + t]).room_type != RoomType::Spawn
                        && !self.rooms@[start + t].is_central,
                forall|t: int|
                    0 <= t < k ==> self.room_grid@[(#[trigger] order@[t]).1 as int]@[order@[t].0 as int]
                        == Some((start + t) as usize),
                self.room_manager == old(self).room_manager,
                forall|t: int|
                    0 <= t < k ==> interior_room_ok(
                        #[trigger] self.rooms@[start + t],
                        self.room_manager.templates@,
                        self.room_width as int,
                        self.room_height as int,
                        order@[t],
                    ),
                forall|y: int, x: int|
                    0 <= y < self.rooms_high && 0 <= x < self.rooms_wide && (forall|t: int|
                        0 <= t < k ==> #[trigger] order@[t] != (x as usize, y as usize))
                        ==> #[trigger] self.room_grid@[y]@[x] == old(self).room_grid@[y]@[x],
            decreases n - k,
        {
            let (gx, gy) = order[k];
            let rw = self.room_width;
            let rh = self.room_height;
            proof {
                lemma_cell_fits(gx as int, self.rooms_wide as int, rw as int);
                lemma_cell_fits(gy as int, self.rooms_high as int, rh as int);
            }
            let x = gx * (rw - 1);
            let y = gy * (rh - 1);
            let mut found: Option<Room> = None;
            let mut attempt: usize = 0;
            let ghost iter_rooms = self.rooms@;
            let ghost iter_grid = self.room_grid@;
            while attempt < 10
                invariant
                    self.rooms@ == iter_rooms,
                    self.room_grid@ == iter_grid,
                    self.room_manager == old(self).room_manager,
                    found matches Some(room) ==> exists|j: int|
                        0 <= j < self.room_manager.templates@.len()
                            && self.room_manager.templates@[j].room_type != RoomType::Spawn
                            && self.room_manager.templates@[j].room_type != RoomType::Central
                            && #[trigger] template_room(
                            room,
                            self.room_manager.templates@[j],
                            x as int,
                            y as int,
                            rw as int,
                            rh as int,
                        ),
                    self.wf(),
                    single_central(self.rooms@),
                    same_dims(*self, *old(self)),
                    self.rooms@.len() == start + k,
                    self.spawn_points == old(self).spawn_points,
                    self.blank_central == old(self).blank_central,
                    forall|t: int| 0 <= t < start ==> self.rooms@[t] == old(self).rooms@[t],
                    x + rw <= self.width,
                    y + rh <= self.height,
                    rw == self.room_width,
                    rh == self.room_height,
                    found matches Some(room) ==> room.wf() && fits(
                        room,
                        self.width as int,
                        self.height as int,
                    ) && room.width >= rw && room.height >= rh && room.position == pos(
                        x as int,
                        y as int,
                    ) && room.room_type != RoomType::Spawn,
                decreases 10 - attempt,
            {
                if found.is_some() {
                    break;
                }
                let template: Option<RoomTemplate> = match self.room_manager.get_random_template(
                    &mut self.rng,
                    false,
                ) {
                    Some(t) => Some(*t),
                    None => None,
                };
                if let Some(t) = template {
                    if t.room_type != RoomType::Spawn {
                        found =
                        try_template(&self.room_manager, &t, x, y, rw, rh, self.width, self.height);
                    }
                }
                attempt += 1;
            }
            let ghost ts = self.room_manager.templates@;
            let built = match found {
                Some(r) => r,
                None => Room::new(x, y, rw, rh, false),
            };
            let mut room = built;
            room.is_central = false;
            proof {
                assert(pos(x as int, y as int) == cell_origin(rw as int, rh as int, gx as int, gy as int));
                if found is Some {
                    let j = choose|j: int|
                        0 <= j < ts.len() && ts[j].room_type != RoomType::Spawn && ts[j].room_type
                            != RoomType::Central && #[trigger] template_room(
                            built,
                            ts[j],
                            x as int,
                            y as int,
                            rw as int,
                            rh as int,
                        );
                    let t = ts[j];
                    let p = choose|p: ParsedRoom|
                        #![trigger parse_outcome(t, Ok(p))]
                        parse_outcome(t, Ok(p)) && placed_from(built, p, x as int, y as int, rw as int, rh as int);
                    assert(Room { is_central: p.is_central, room_type: p.room_type, ..room } == built);
                    assert(relabelled_from(room, ts[j], x as int, y as int, rw as int, rh as int));
                } else {
                    lemma_blank_relabel(built, room, false);
                }
                assert(interior_room_ok(room, ts, rw as int, rh as int, (gx, gy)));
            }
            assert(room.position == pos(x as int, y as int));
            assert(pos(x as int, y as int) == cell_origin(self.room_width as int, self.room_height as int, gx as int, gy as int));
            let ghost before = self.rooms@;
            let ghost grid_before = self.room_grid@;
            self.push_cell_room(room, gx, gy);
            assert(self.rooms@[start + k] == room);
            proof {
                assert forall|t: int| 0 <= t < k + 1 implies interior_room_ok(
                    #[trigger] self.rooms@[start + t],
                    self.room_manager.templates@,
                    self.room_width as int,
                    self.room_height as int,
                    order@[t],
                ) by {
                    if t < k {
                        assert(self.rooms@[start + t] == before[start + t]);
                    }
                }
                assert forall|t: int| 0 <= t < k + 1 implies (#[trigger] self.rooms@[start
                    + t]).room_type != RoomType::Spawn && !self.rooms@[start + t].is_central by {
                    if t < k {
                        assert(self.rooms@[start + t] == before[start + t]);
                    }
                }
                assert forall|t: int| 0 <= t < k + 1 implies self.room_grid@[(
                #[trigger] order@[t]).1 as int]@[order@[t].0 as int] == Some((start + t) as usize) by {
                    if t < k {
                        assert(order@[t] != order@[k as int]);
                        assert(grid_before[order@[t].1 as int]@[order@[t].0 as int] == Some(
                            (start + t) as usize,
                        ));
                    }
                }
                assert forall|yy: int, xx: int|
                    0 <= yy < self.rooms_high && 0 <= xx < self.rooms_wide && (forall|t: int|
                        0 <= t < k + 1 ==> #[trigger] order@[t] != (xx as usize, yy as usize))
                        implies #[trigger] self.room_grid@[yy]@[xx] == old(self).room_grid@[yy]@[xx] by {
                    assert(order@[k as int] != (xx as usize, yy as usize));
                    assert(grid_before[yy]@[xx] == old(self).room_grid@[yy]@[xx]);
                }
                assert forall|t: int| 0 <= t < start implies self.rooms@[t] == old(self).rooms@[t] by {
                    assert(self.rooms@[t] == before[t]);
                }
                assert forall|t: int| 0 <= t < k + 1 implies (#[trigger] self.rooms@[start
                    + t]).position == cell_origin(self.room_width as int, self.room_height as int, order@[t].0 as int, order@[t].1 as int) by {
                    if t < k {
                        assert(self.rooms@[start + t] == before[start + t]);
                    }
                }
            }
            k += 1;
        }
        proof {
            assert forall|t: int| 0 <= t < n implies exists|i: int|
                0 <= i < self.rooms@.len() && (#[trigger] self.rooms@[i]).position == cell_origin(self.room_width as int, self.room_height as int,
                    (#[trigger] interior_positions@[t]).0 as int,
                    interior_positions@[t].1 as int,
                ) by {
                let u = choose|u: int| 0 <= u < order@.len() && order@[u] == interior_positions@[t];
                assert(self.rooms@[start + u].position == cell_origin(self.room_width as int, self.room_height as int,
                    order@[u].0 as int,
                    order@[u].1 as int,
                ));
            }
            assert forall|y: int, x: int|
                0 <= y < self.rooms_high && 0 <= x < self.rooms_wide && !interior_positions@.contains(
                    (x as usize, y as usize),
                ) implies #[trigger] self.room_grid@[y]@[x] == old(self).room_grid@[y]@[x] by {
                assert forall|t: int| 0 <= t < n implies #[trigger] order@[t] != (x as usize, y as usize) by {
                    assert(interior_positions@.contains(order@[t]));
                }
            }
            assert(reordering(order@, interior_positions@));
            assert(cells_placed(*self, *old(self), order@));
        }
    }

    /// Runs the three placement phases in order.
    fn place_rooms(&mut self)
        requires
            old(self).wf(),
            old(self).rooms@.len() == 0,
            grid_empty(old(self).room_grid@, old(self).rooms_wide as int, old(self).rooms_high as int),
        ensures
            grid_consistent(*final(self)),
            ring_of_spawn_rooms(*final(self)),
            central_placement(*final(self)),
            final(self).room_manager == old(self).room_manager,
            final(self).rooms@[0].position == cell_origin(
                final(self).room_width as int,
                final(self).room_height as int,
                (final(self).rooms_wide - final(self).central_room_multiplier) / 2,
                (final(self).rooms_high - final(self).central_room_multiplier) / 2,
            ),
            final(self).wf(),
            single_central(final(self).rooms@),
            final(self).spawn_points == old(self).spawn_points,
            final(self).blank_central == old(self).blank_central,
            same_dims(*final(self), *old(self)),
    {
        self.place_central_room();
        let ghost central = *self;
        let (edge_positions, interior_positions) = self.collect_available_positions();
        proof {
            lemma_row_major_distinct(edge_positions@);
            lemma_row_major_distinct(interior_positions@);
        }
        self.place_edge_spawn_rooms(&edge_positions);
        let ghost edged = *self;
        self.place_interior_rooms(&interior_positions);
        let placed_count = self.rooms.len();
        proof {
            assert(self.rooms@[0] == edged.rooms@[0]);
            assert(edged.rooms@[0] == central.rooms@[0]);
            assert(self.rooms@.len() == placed_count);
            let cells = choose|cells: Seq<(usize, usize)>|
                reordering(cells, interior_positions@) && #[trigger] cells_placed(
                    *self,
                    edged,
                    cells,
                );
            let start = edged.rooms@.len() as int;
            assert forall|y: int, x: int|
                0 <= y < self.rooms_high && 0 <= x < self.rooms_wide implies cell_ok(
                    *self,
                    x,
                    y,
                    #[trigger] self.room_grid@[y]@[x],
                ) by {
                let c = (x as usize, y as usize);
                assert(c.0 as int == x && c.1 as int == y);
                if in_central_block(*self, x, y) {
                    assert(central.room_grid@[y]@[x] == Some(0usize));
                    assert forall|t: int| 0 <= t < edge_positions@.len() implies #[trigger] edge_positions@[t]
                        != c by {
                        assert(central.room_grid@[edge_positions@[t].1 as int]@[edge_positions@[t].0 as int] is None);
                    }
                    assert(edged.room_grid@[y]@[x] == Some(0usize));
                    if cells.contains(c) {
                        assert(interior_positions@.contains(c));
                        let t = choose|t: int| 0 <= t < interior_positions@.len() && interior_positions@[t] == c;
                        assert(central.room_grid@[interior_positions@[t].1 as int]@[interior_positions@[t].0 as int] is None);
                    }
                    assert(self.room_grid@[y]@[x] == Some(0usize));
                    assert(cell_ok_at(*self, x, y, 0));
                } else if is_edge_cell(x, y, self.rooms_wide as int, self.rooms_high as int) {
                    assert(central.room_grid@[y]@[x] is None);
                    assert(edge_positions@.contains(c));
                    let k = choose|k: int| 0 <= k < edge_positions@.len() && edge_positions@[k] == c;
                    assert(edged.room_grid@[y]@[x] == Some((1 + k) as usize));
                    if cells.contains(c) {
                        assert(interior_positions@.contains(c));
                        let t = choose|t: int| 0 <= t < interior_positions@.len() && interior_positions@[t] == c;
                        assert(!is_edge_cell(
                            interior_positions@[t].0 as int,
                            interior_positions@[t].1 as int,
                            self.rooms_wide as int,
                            self.rooms_high as int,
                        ));
                    }
                    assert(self.room_grid@[y]@[x] == Some((1 + k) as usize));
                    assert(edged.rooms@[1 + k].room_type == RoomType::Spawn);
                    assert(self.rooms@[1 + k] == edged.rooms@[1 + k]);
                    assert(self.rooms@[1 + k].position == cell_origin(
                        self.room_width as int,
                        self.room_height as int,
                        x,
                        y,
                    ));
                    assert(cell_ok_at(*self, x, y, 1 + k));
                } else {
                    assert(central.room_grid@[y]@[x] is None);
                    assert(interior_positions@.contains(c));
                    assert(cells.contains(c));
                    let k = choose|k: int| 0 <= k < cells.len() && cells[k] == c;
                    assert(self.rooms@[start + k].position == cell_origin(
                        self.room_width as int,
                        self.room_height as int,
                        cells[k].0 as int,
                        cells[k].1 as int,
                    ));
                    assert(self.room_grid@[y]@[x] == Some((start + k) as usize));
                    assert(cell_ok_at(*self, x, y, start + k));
                }
            }
        }
    }

    /// Draws the rooms on a fresh wall canvas.
    fn render_map(&mut self)
        requires
            old(self).wf(),
        ensures
            final(self).room_manager == old(self).room_manager,
            final(self).room_grid == old(self).room_grid,
            final(self).wf(),
            final(self).rooms == old(self).rooms,
            final(self).spawn_points == old(self).spawn_points,
            final(self).blank_central == old(self).blank_central,
            same_dims(*final(self), *old(self)),
            forall|y: int, x: int|
                0 <= y < final(self).height && 0 <= x < final(self).width ==> #[trigger] final(self).map@[y]@[x] == rendered(final(self).rooms@, final(self).rooms@.len() as int, x, y),
            codes_valid(final(self).map@, final(self).width as int, final(self).height as int),
    {
        self.map = render_canvas(&self.rooms, self.width, self.height);
    }

    /// Turns every pair of touching connectors of two rooms into doors.
    fn connect_rooms(&mut self)
        requires
            old(self).wf(),
        ensures
            final(self).room_manager == old(self).room_manager,
            final(self).room_grid == old(self).room_grid,
            final(self).wf(),
            final(self).rooms == old(self).rooms,
            final(self).spawn_points == old(self).spawn_points,
            final(self).blank_central == old(self).blank_central,
            same_dims(*final(self), *old(self)),
            forall|y: int, x: int|
                0 <= y < final(self).height && 0 <= x < final(self).width ==> #[trigger] final(self).map@[y]@[x] == if door_cell(final(self).rooms@, pos(x, y)) {
                    DOOR_CODE
                } else {
                    old(self).map@[y]@[x]
                },
    {
        let links = find_all_links(&self.rooms, self.width, self.height);
        let ghost rooms = self.rooms@;
        proof {
            assert forall|p: Position| link_end(links@, p) <==> door_cell(rooms, p) by {
                if link_end(links@, p) {
                    let k = choose|k: int|
                        0 <= k < links@.len() && (links@[k].0 == p || links@[k].1 == p);
                    assert(linked(rooms, links@[k].0, links@[k].1));
                }
                if door_cell(rooms, p) {
                    let q = choose|q: Position| linked(rooms, p, q) || linked(rooms, q, p);
                    if linked(rooms, p, q) {
                        let k = choose|k: int| 0 <= k < links@.len() && links@[k] == (p, q);
                        assert(links@[k].0 == p);
                    } else {
                        let k = choose|k: int| 0 <= k < links@.len() && links@[k] == (q, p);
                        assert(links@[k].1 == p);
                    }
                }
            }
        }
        apply_doors(&mut self.map, &links, self.width, self.height);
    }

    /// Derives the spawn points from the rooms and the finished canvas.
    fn generate_spawn_points(&mut self)
        requires
            old(self).wf(),
        ensures
            final(self).room_manager == old(self).room_manager,
            final(self).room_grid == old(self).room_grid,
            final(self).wf(),
            final(self).rooms == old(self).rooms,
            final(self).map == old(self).map,
            final(self).blank_central == old(self).blank_central,
            same_dims(*final(self), *old(self)),
            spawn_rule(
                final(self).rooms@,
                final(self).map@,
                final(self).width as int,
                final(self).height as int,
                final(self).spawn_points@,
            ),
    {
        self.spawn_points = extract_spawn_points(&self.rooms, &self.map, self.width, self.height);
    }

    /// Draws the placed rooms, joins them with doors and derives the spawn points.
    pub(crate) fn finish_level(&mut self)
        requires
            old(self).wf(),
            single_central(old(self).rooms@),
        ensures
            final(self).room_manager == old(self).room_manager,
            final(self).room_grid == old(self).room_grid,
            finished(*final(self)),
            final(self).rooms == old(self).rooms,
            final(self).blank_central == old(self).blank_central,
            same_dims(*final(self), *old(self)),
    {
        self.render_map();
        let ghost drawn = self.map@;
        self.connect_rooms();
        self.generate_spawn_points();
        proof {
            let w = self.width as int;
            let h = self.height as int;
            assert forall|y: int, x: int| 0 <= y < h && 0 <= x < w implies #[trigger] self.map@[y]@[x]
                <= 2 by {
                assert(drawn[y]@[x] <= 2);
            }
            assert forall|a: Position, b: Position| #[trigger] linked(self.rooms@, a, b) implies in_canvas(
                a,
                w,
                h,
            ) && in_canvas(b, w, h) && code_at(self.map@, a) == DOOR_CODE && code_at(self.map@, b)
                == DOOR_CODE by {
                lemma_linked_in_canvas(self.rooms@, a, b, w, h);
                assert(door_cell(self.rooms@, a));
                assert(door_cell(self.rooms@, b));
                assert(pos(a.x as int, a.y as int) == a);
                assert(pos(b.x as int, b.y as int) == b);
            }
        }
    }

    /// Lays out the rooms, draws them, joins them with doors and derives the spawn
    /// points; returns the canvas, row by row.
    pub fn generate(&mut self) -> (r: Vec<Vec<u8>>)
        requires
            old(self).wf(),
            old(self).rooms@.len() == 0,
            grid_empty(old(self).room_grid@, old(self).rooms_wide as int, old(self).rooms_high as int),
        ensures
            finished(*final(self)),
            grid_consistent(*final(self)),
            central_placement(*final(self)),
            final(self).room_manager == old(self).room_manager,
            final(self).blank_central == old(self).blank_central,
            final(self).rooms@[0].position == cell_origin(
                final(self).room_width as int,
                final(self).room_height as int,
                (final(self).rooms_wide - final(self).central_room_multiplier) / 2,
                (final(self).rooms_high - final(self).central_room_multiplier) / 2,
            ),
            ring_of_spawn_rooms(*final(self)),
            every_cell_filled(*final(self)),
            same_dims(*final(self), *old(self)),
            r@.len() == final(self).map@.len(),
            forall|y: int| 0 <= y < r@.len() ==> (#[trigger] r@[y])@ == final(self).map@[y]@,
    {
        self.place_rooms();
        let ghost placed = *self;
        self.finish_level();
        proof {
            assert forall|y: int, x: int|
                0 <= y < self.rooms_high && 0 <= x < self.rooms_wide implies cell_ok(
                    *self,
                    x,
                    y,
                    #[trigger] self.room_grid@[y]@[x],
                ) by {
                assert(cell_ok(placed, x, y, placed.room_grid@[y]@[x]));
            }
            assert(central_placement(placed));
            lemma_grid_gives_rooms(*self);
        }
        copy_canvas(&self.map)
    }

    /// All spawn points.
    pub fn get_spawn_points(&self) -> (r: &Vec<Position>)
        ensures
            r@ == self.spawn_points@,
    {
        &self.spawn_points
    }

    /// The middle cell of the central room.
    pub fn get_central_room_position(&self) -> (r: Option<Position>)
        requires
            self.wf(),
        ensures
            r is None <==> forall|i: int|
                0 <= i < self.rooms@.len() ==> !(#[trigger] self.rooms@[i]).is_central,
            r matches Some(p) ==> exists|i: int|
                0 <= i < self.rooms@.len() && self.rooms@[i].is_central && (forall|j: int|
                    0 <= j < i ==> !(#[trigger] self.rooms@[j]).is_central) && p == pos(
                    self.rooms@[i].position.x + self.rooms@[i].width / 2,
                    self.rooms@[i].position.y + self.rooms@[i].height / 2,
                ),
    {
        let mut i: usize = 0;
        while i < self.rooms.len()
            invariant
                self.wf(),
                i <= self.rooms@.len(),
                forall|j: int| 0 <= j < i ==> !(#[trigger] self.rooms@[j]).is_central,
            decreases self.rooms@.len() - i,
        {
            let room = &self.rooms[i];
            if room.is_central {
                assert(fits(*room, self.width as int, self.height as int));
                return Some(
                    Position {
                        x: room.position.x + room.width / 2,
                        y: room.position.y + room.height / 2,
                    },
                );
            }
            i += 1;
        }
        None
    }

    /// A spawn point drawn with the generator's own random source.
    pub fn get_random_spawn_point(&mut self) -> (r: Option<Position>)
        ensures
            r is None <==> old(self).spawn_points@.len() == 0,
            r matches Some(p) ==> old(self).spawn_points@.contains(p),
            final(self).spawn_points == old(self).spawn_points,
            final(self).rooms == old(self).rooms,
            final(self).map == old(self).map,
    {
        if self.spawn_points.len() == 0 {
            return None;
        }
        let k = draw_below(&mut self.rng, self.spawn_points.len() as u64) as usize;
        Some(self.spawn_points[k])
    }

    /// Middle cell of a room that reaches a border of the canvas (not the central
    /// room), drawn with the generator's random source; else of the first room that
    /// is not central; none when every room is central.
    pub fn get_spawn_room(&mut self) -> (r: Option<Position>)
        requires
            old(self).wf(),
        ensures
            r is None <==> forall|i: int|
                0 <= i < old(self).rooms@.len() ==> (#[trigger] old(self).rooms@[i]).is_central,
            r matches Some(p) ==> exists|i: int|
                0 <= i < old(self).rooms@.len() && !(#[trigger] old(self).rooms@[i]).is_central
                    && p == pos(
                    old(self).rooms@[i].position.x + old(self).rooms@[i].width / 2,
                    old(self).rooms@[i].position.y + old(self).rooms@[i].height / 2,
                ),
            final(self).wf(),
            same_dims(*final(self), *old(self)),
            final(self).rooms == old(self).rooms,
            final(self).map == old(self).map,
            final(self).spawn_points == old(self).spawn_points,
    {
        let mut edge_rooms: Vec<usize> = Vec::new();
        let mut first_plain: Option<usize> = None;
        let mut i: usize = 0;
        while i < self.rooms.len()
            invariant
                self.wf(),
                *self == *old(self),
                i <= self.rooms@.len(),
                forall|k: int|
                    0 <= k < edge_rooms@.len() ==> (#[trigger] edge_rooms@[k]) < self.rooms@.len()
                        && !self.rooms@[edge_rooms@[k] as int].is_central,
                first_plain matches Some(j) ==> j < self.rooms@.len()
                    && !self.rooms@[j as int].is_central,
                first_plain is None ==> forall|k: int| 0 <= k < i ==> (#[trigger] self.rooms@[k]).is_central,
            decreases self.rooms@.len() - i,
        {
            let room = &self.rooms[i];
            if !room.is_central {
                assert(fits(*room, self.width as int, self.height as int));
                if first_plain.is_none() {
                    first_plain = Some(i);
                }
                if room.position.x == 0 || room.position.y == 0 || room.position.x + room.width
                    >= self.width || room.position.y + room.height >= self.height {
                    edge_rooms.push(i);
                }
            }
            i += 1;
        }
        let chosen = if edge_rooms.len() > 0 {
            let k = draw_below(&mut self.rng, edge_rooms.len() as u64) as usize;
            Some(edge_rooms[k])
        } else {
            first_plain
        };
        match chosen {
            Some(j) => {
                let room = &self.rooms[j];
                assert(fits(*room, self.width as int, self.height as int));
                Some(
                    Position {
                        x: room.position.x + room.width / 2,
                        y: room.position.y + room.height / 2,
                    },
                )
            },
            None => None,
        }
    }

    /// The spawn point nearest a border of the canvas; the first such in list order.
    pub fn get_best_spawn_point(&self) -> (r: Option<Position>)
        ensures
            r is None <==> self.spawn_points@.len() == 0,
            r matches Some(p) ==> best_of(self.spawn_points@, p, self.width as int, self.height as int),
    {
        best_spawn_point(&self.spawn_points, self.width, self.height)
    }
}

/// What a generated level guarantees: each room at least the configured size and
/// on the canvas, a single central room first, every tile code a wall, floor or door,
/// each door pair placed where two rooms' connectors touch, and spawn points as the
/// spawn rule gives them.
pub open spec fn finished(g: DungeonGenerator) -> bool {
    let w = g.width as int;
    let h = g.height as int;
    &&& g.wf()
    &&& single_central(g.rooms@)
    &&& codes_valid(g.map@, w, h)
    &&& forall|y: int, x: int|
        0 <= y < h && 0 <= x < w ==> #[trigger] g.map@[y]@[x] == if door_cell(g.rooms@, pos(x, y)) {
            DOOR_CODE
        } else {
            rendered(g.rooms@, g.rooms@.len() as int, x, y)
        }
    &&& forall|a: Position, b: Position| #[trigger]
        linked(g.rooms@, a, b) ==> in_canvas(a, w, h) && in_canvas(b, w, h) && code_at(g.map@, a)
            == DOOR_CODE && code_at(g.map@, b) == DOOR_CODE
    &&& spawn_rule(g.rooms@, g.map@, w, h, g.spawn_points@)
}

/// Connectors of rooms on the canvas lie on the canvas.
pub proof fn lemma_linked_in_canvas(rooms: Seq<Room>, a: Position, b: Position, w: int, h: int)
    requires
        rooms_fit(rooms, w, h),
        linked(rooms, a, b),
    ensures
        in_canvas(a, w, h),
        in_canvas(b, w, h),
{
    let (i, j) = choose|i: int, j: int| linked_by(rooms, i, j, a, b);
    assert(rooms[i].wf() && fits(rooms[i], w, h));
    assert(rooms[j].wf() && fits(rooms[j], w, h));
    let ka = choose|k: int|
        0 <= k < rooms[i].global_connections().len() && rooms[i].global_connections()[k] == a;
    let kb = choose|k: int|
        0 <= k < rooms[j].global_connections().len() && rooms[j].global_connections()[k] == b;
    assert(rooms[i].connections@[ka].x < rooms[i].width);
    assert(rooms[j].connections@[kb].x < rooms[j].width);
}

/// The two generators agree on every size field.
pub open spec fn same_dims(a: DungeonGenerator, b: DungeonGenerator) -> bool {
    &&& a.rooms_wide == b.rooms_wide
    &&& a.rooms_high == b.rooms_high
    &&& a.width == b.width
    &&& a.height == b.height
    &&& a.room_width == b.room_width
    &&& a.room_height == b.room_height
    &&& a.central_room_multiplier == b.central_room_multiplier
}

/// A room from `template` at (x, y), grown to at least `min_w` x `min_h`, when the
/// template reads and the room stays on the `width` x `height` canvas.
pub fn try_template(
    manager: &RoomManager,
    template: &RoomTemplate,
    x: usize,
    y: usize,
    min_w: usize,
    min_h: usize,
    width: usize,
    height: usize,
) -> (r: Option<Room>)
    ensures
        r is Some <==> template_fits(*template, x as int, y as int, min_w as int, min_h as int, width as int, height as int),
        r matches Some(room) ==> template_room(room, *template, x as int, y as int, min_w as int, min_h as int),
        r matches Some(room) ==> room.wf() && fits(room, width as int, height as int) && room.width
            >= min_w && room.height >= min_h && room.position == pos(x as int, y as int)
            && room.room_type == template.room_type && (room.template_name matches Some(n)
            && n@ == template.name@),
{
    let res = manager.create_room_from_template_with_min_size(template, x, y, min_w, min_h);
    proof {
        if res is Ok {
            let p = choose|p: ParsedRoom|
                parse_outcome(*template, Ok(p)) && #[trigger] placed_from(
                    res->Ok_0,
                    p,
                    x as int,
                    y as int,
                    min_w as int,
                    min_h as int,
                );
            assert(template_room(res->Ok_0, *template, x as int, y as int, min_w as int, min_h as int));
            assert forall|q: ParsedRoom| parse_outcome(*template, Ok(q)) implies q.width == p.width
                && q.height == p.height by {}
        } else {
            assert forall|q: ParsedRoom| !parse_outcome(*template, Ok(q)) by {
                if parse_outcome(*template, Ok(q)) {
                    lemma_parse_ok(*template, Ok(q));
                    lemma_parse_ok(*template, Err(res->Err_0));
                }
            }
        }
    }
    match res {
        Ok(room) => {
            if room.width <= width && x <= width - room.width && room.height <= height && y
                <= height - room.height {
                Some(room)
            } else {
                None
            }
        },
        Err(_) => None,
    }
}

/// The template reads, and grown to at least `min_w` x `min_h` at (x, y) it stays on
/// a `width` x `height` canvas.
pub open spec fn template_fits(
    t: RoomTemplate,
    x: int,
    y: int,
    min_w: int,
    min_h: int,
    width: int,
    height: int,
) -> bool {
    exists|p: ParsedRoom|
        #![trigger parse_outcome(t, Ok(p))]
        parse_outcome(t, Ok(p)) && x + grown(p.width as int, min_w) <= width && y + grown(
            p.height as int,
            min_h,
        ) <= height
}

/// The room is template `t` read and grown to at least `min_w` x `min_h` at (x, y).
pub open spec fn template_room(room: Room, t: RoomTemplate, x: int, y: int, min_w: int, min_h: int) -> bool {
    exists|p: ParsedRoom|
        #![trigger parse_outcome(t, Ok(p))]
        parse_outcome(t, Ok(p)) && placed_from(room, p, x, y, min_w, min_h)
}

} // verus!
