use vstd::prelude::*;

use vstd::arithmetic::div_mod::{lemma_div_pos_is_pos, lemma_fundamental_div_mod, lemma_mod_pos_bound};

use crate::canvas::canvas_shape;
use crate::dungeon::{
    central_placement, every_cell_filled, finished, grid_consistent, ring_of_spawn_rooms,
    DungeonGenerator,
};
use crate::error::GenerationError;
use crate::layout::{canvas_side, layout_fits, layout_ok, lemma_layout_sides};
use crate::room::{max_side, Room, MIN_ROOM_SIDE};
use crate::canvas::in_canvas;
use crate::spawn::{any_floor, best_of, best_spawn_point, floor_at};
use crate::template::RoomType;
use crate::tile::{walkable_at, walkable_code, Position, FLOOR_CODE};
use crate::town::{town_planned, TownGenerator};

verus! {

/// The kind of level to produce.
#[derive(Debug, Clone, Copy, PartialEq, Eq, Structural)]
pub enum MapType {
    Dungeon,
    Town,
    Wilderness,
    Instance,
}

/// Per-kind configuration of a generation call.
#[derive(Debug, Clone)]
pub enum LevelParams {
    Dungeon {
        rooms_wide: usize,
        rooms_high: usize,
        room_width: usize,
        room_height: usize,
        central_room_multiplier: usize,
        central_room_template: Option<String>,
    },
    Town { grid_size: usize, room_width: usize, room_height: usize, is_starting_town: bool },
}

/// Facts about a generated level.
#[derive(Debug, Clone)]
pub struct LevelMetadata {
    pub room_count: usize,
    /// Number of rooms of each category, in the order combat, treasure, central,
    /// rest, spawn, town.
    pub room_types: Vec<(RoomType, usize)>,
    pub seed: u64,
    /// Filled in by whoever times the call.
    pub generation_time_ms: Option<u64>,
}

/// A finished level, as handed to storage.
#[derive(Debug, Clone)]
pub struct LevelResult {
    pub name: String,
    pub map_type: MapType,
    pub width: usize,
    pub height: usize,
    /// Row-major tile codes: `tiles[y * width + x]`, 0 wall, 1 floor, 2 door.
    pub tiles: Vec<u8>,
    pub spawn_position: Position,
    pub spawn_points: Vec<Position>,
    pub is_starting_town: bool,
    pub metadata: LevelMetadata,
    pub special_features: Vec<String>,
    /// Entities currently on this level; each at most once.
    pub entity_ids: Vec<u64>,
}

/// Marker placed among the special features of the starting town.
pub const STARTING_TOWN_FEATURE: &'static str = "Starting Town";

/// How many of the first `n` rooms are of category `t`.
pub open spec fn count_type(rooms: Seq<Room>, t: RoomType, n: int) -> int
    decreases n,
{
    if n <= 0 {
        0
    } else {
        count_type(rooms, t, n - 1) + if rooms[n - 1].room_type == t {
            1int
        } else {
            0
        }
    }
}

pub open spec fn category_order() -> Seq<RoomType> {
    seq![
        RoomType::Combat,
        RoomType::Treasure,
        RoomType::Central,
        RoomType::Rest,
        RoomType::Spawn,
        RoomType::Town,
    ]
}

impl LevelResult {
    /// The code at (x, y), when that cell is on the level.
    pub open spec fn spec_tile(&self, x: int, y: int) -> Option<u8> {
        if 0 <= x < self.width && 0 <= y < self.height && 0 <= y * self.width + x
            < self.tiles@.len() {
            Some(self.tiles@[y * self.width + x])
        } else {
            None
        }
    }

    /// The code at (x, y), or none off the level.
    pub fn get_tile(&self, x: usize, y: usize) -> (r: Option<u8>)
        ensures
            r == self.spec_tile(x as int, y as int),
    {
        if x >= self.width || y >= self.height {
            return None;
        }
        proof {
            assert(y as int * self.width as int + x as int <= usize::MAX as int * usize::MAX as int
                + usize::MAX as int) by (nonlinear_arith)
                requires
                    y <= usize::MAX,
                    self.width <= usize::MAX,
                    x <= usize::MAX,
            ;
        }
        let wide: u128 = y as u128 * self.width as u128 + x as u128;
        if wide >= self.tiles.len() as u128 {
            return None;
        }
        Some(self.tiles[wide as usize])
    }

    /// Whether (x, y) is on the level and holds floor or door.
    pub fn is_walkable(&self, x: usize, y: usize) -> (r: bool)
        ensures
            r == walkable_at(
                self.tiles@,
                x as int,
                y as int,
                self.width as int,
                self.height as int,
            ),
            r == (self.spec_tile(x as int, y as int) matches Some(c) && walkable_code(c)),
    {
        match self.get_tile(x, y) {
            Some(c) => c == 1 || c == 2,
            None => false,
        }
    }

    /// All spawn points.
    pub fn get_spawn_positions(&self) -> (r: &Vec<Position>)
        ensures
            r@ == self.spawn_points@,
    {
        &self.spawn_points
    }

    /// Cell `k` of the 5 x 5 window centred on the primary spawn (row by row),
    /// clamped at the top and left borders.
    pub open spec fn window_cell(&self, k: int) -> Position {
        let bx = if self.spawn_position.x >= 2 {
            self.spawn_position.x - 2
        } else {
            0
        };
        let by = if self.spawn_position.y >= 2 {
            self.spawn_position.y - 2
        } else {
            0
        };
        let x = if bx + k % 5 <= usize::MAX {
            bx + k % 5
        } else {
            usize::MAX as int
        };
        let y = if by + k / 5 <= usize::MAX {
            by + k / 5
        } else {
            usize::MAX as int
        };
        Position { x: x as usize, y: y as usize }
    }

    /// The walkable cells among the first `n` cells of the window, in order.
    pub open spec fn walkable_window(&self, n: int) -> Seq<Position>
        decreases n,
    {
        if n <= 0 {
            Seq::empty()
        } else {
            let pre = self.walkable_window(n - 1);
            let p = self.window_cell(n - 1);
            if walkable_at(
                self.tiles@,
                p.x as int,
                p.y as int,
                self.width as int,
                self.height as int,
            ) {
                pre.push(p)
            } else {
                pre
            }
        }
    }

    /// The walkable cells of the 5 x 5 window around the primary spawn, row by
    /// row; the primary spawn alone when there is none.
    pub fn get_spawn_positions_near_primary(&self) -> (r: Vec<Position>)
        ensures
            self.walkable_window(25).len() > 0 ==> r@ == self.walkable_window(25),
            self.walkable_window(25).len() == 0 ==> r@ == seq![self.spawn_position],
    {
        let sx = self.spawn_position.x;
        let sy = self.spawn_position.y;
        let bx = if sx >= 2 {
            sx - 2
        } else {
            0
        };
        let by = if sy >= 2 {
            sy - 2
        } else {
            0
        };
        let mut out: Vec<Position> = Vec::new();
        let mut k: usize = 0;
        while k < 25
            invariant
                k <= 25,
                bx == (if sx >= 2 {
                    sx - 2
                } else {
                    0
                }),
                by == (if sy >= 2 {
                    sy - 2
                } else {
                    0
                }),
                sx == self.spawn_position.x,
                sy == self.spawn_position.y,
                out@ == self.walkable_window(k as int),
            decreases 25 - k,
        {
            let dx = k % 5;
            let dy = k / 5;
            let x = if bx <= usize::MAX - dx {
                bx + dx
            } else {
                usize::MAX
            };
            let y = if by <= usize::MAX - dy {
                by + dy
            } else {
                usize::MAX
            };
            let p = Position { x, y };
            assert(p == self.window_cell(k as int));
            if self.is_walkable(x, y) {
                out.push(p);
            }
            k += 1;
        }
        if out.len() == 0 {
            out.push(self.spawn_position);
            assert(out@ =~= seq![self.spawn_position]);
        }
        out
    }

    /// A spawn point picked by a linear congruential step of `seed`; the primary
    /// spawn when the list is empty.
    pub fn get_random_spawn_point(&self, seed: usize) -> (r: Option<Position>)
        ensures
            self.spawn_points@.len() == 0 ==> r == Some(self.spawn_position),
            self.spawn_points@.len() > 0 ==> r == Some(
                self.spawn_points@[lcg_index(seed as int, self.spawn_points@.len() as int)],
            ),
    {
        if self.spawn_points.len() == 0 {
            return Some(self.spawn_position);
        }
        let value: u128 = (1664525u128 * seed as u128 + 1013904223u128) % 4294967296u128;
        let index = (value as usize) % self.spawn_points.len();
        Some(self.spawn_points[index])
    }

    /// Whether this level is the starting town.
    pub fn is_starting_town(&self) -> (r: bool)
        ensures
            r == (self.map_type == MapType::Town && self.is_starting_town),
    {
        self.map_type == MapType::Town && self.is_starting_town
    }

    /// Records that entity `entity_id` is on this level, unless it already is.
    pub fn add_entity(&mut self, entity_id: u64)
        ensures
            old(self).entity_ids@.contains(entity_id) ==> final(self).entity_ids@
                == old(self).entity_ids@,
            !old(self).entity_ids@.contains(entity_id) ==> final(self).entity_ids@
                == old(self).entity_ids@.push(entity_id),
    {
        let mut i: usize = 0;
        while i < self.entity_ids.len()
            invariant
                *self == *old(self),
                i <= self.entity_ids@.len(),
                forall|k: int| 0 <= k < i ==> self.entity_ids@[k] != entity_id,
            decreases self.entity_ids@.len() - i,
        {
            if self.entity_ids[i] == entity_id {
                return;
            }
            i += 1;
        }
        self.entity_ids.push(entity_id);
    }

    /// Forgets entity `entity_id` on this level.
    pub fn remove_entity(&mut self, entity_id: u64)
        ensures
            final(self).entity_ids@ == without(old(self).entity_ids@, entity_id),
    {
        let mut kept: Vec<u64> = Vec::new();
        let mut i: usize = 0;
        while i < self.entity_ids.len()
            invariant
                *self == *old(self),
                i <= self.entity_ids@.len(),
                kept@ == without(self.entity_ids@.take(i as int), entity_id),
            decreases self.entity_ids@.len() - i,
        {
            let id = self.entity_ids[i];
            proof {
                assert(self.entity_ids@.take(i + 1).drop_last() =~= self.entity_ids@.take(i as int));
            }
            if id != entity_id {
                kept.push(id);
            }
            i += 1;
        }
        proof {
            assert(self.entity_ids@.take(i as int) =~= self.entity_ids@);
        }
        self.entity_ids = kept;
    }

    /// The entities on this level.
    pub fn get_entities(&self) -> (r: &Vec<u64>)
        ensures
            r@ == self.entity_ids@,
    {
        &self.entity_ids
    }

    /// Whether this level is a dungeon.
    pub fn is_dungeon(&self) -> (r: bool)
        ensures
            r == (self.map_type == MapType::Dungeon),
    {
        self.map_type == MapType::Dungeon
    }

    /// Whether this level is a town.
    pub fn is_town(&self) -> (r: bool)
        ensures
            r == (self.map_type == MapType::Town),
    {
        self.map_type == MapType::Town
    }
}

/// The list without any occurrence of `id`, order kept.
pub open spec fn without(ids: Seq<u64>, id: u64) -> Seq<u64>
    decreases ids.len(),
{
    if ids.len() == 0 {
        Seq::empty()
    } else if ids.last() == id {
        without(ids.drop_last(), id)
    } else {
        without(ids.drop_last(), id).push(ids.last())
    }
}

/// Index that a linear congruential step of `seed` picks among `len` entries.
pub open spec fn lcg_index(seed: int, len: int) -> int {
    ((1664525 * seed + 1013904223) % 4294967296) % len
}

/// The flattened tiles match the canvas, cell for cell.
pub open spec fn flattened(tiles: Seq<u8>, map: Seq<Vec<u8>>, width: int, height: int) -> bool {
    &&& tiles.len() == width * height
    &&& forall|y: int, x: int|
        0 <= y < height && 0 <= x < width ==> #[trigger] tiles[y * width + x] == map[y]@[x]
}

/// Some tile is floor.
pub open spec fn tiles_have_floor(tiles: Seq<u8>) -> bool {
    exists|i: int| 0 <= i < tiles.len() && #[trigger] tiles[i] == FLOOR_CODE
}

/// What every generated level satisfies.
pub open spec fn level_ok(l: LevelResult) -> bool {
    let w = l.width as int;
    let h = l.height as int;
    let s = l.spawn_position;
    &&& 20 <= w
    &&& 20 <= h
    &&& l.tiles@.len() == w * h
    &&& forall|i: int| 0 <= i < l.tiles@.len() ==> #[trigger] l.tiles@[i] <= 2
    &&& l.spawn_points@.len() > 0
    &&& forall|k: int| 0 <= k < l.spawn_points@.len() ==> in_canvas(#[trigger] l.spawn_points@[k], w, h)
    &&& best_of(l.spawn_points@, s, w, h)
    &&& tiles_have_floor(l.tiles@) ==> forall|k: int|
        0 <= k < l.spawn_points@.len() ==> l.tiles@[(#[trigger] l.spawn_points@[k]).y * w
            + l.spawn_points@[k].x] == FLOOR_CODE
}

proof fn lemma_row_before(yy: int, xx: int, y: int, w: int)
    requires
        0 <= yy < y,
        0 <= xx < w,
    ensures
        yy * w + xx < y * w,
        0 <= yy * w + xx,
{
    assert(yy * w + xx < y * w) by (nonlinear_arith)
        requires
            0 <= yy < y,
            0 <= xx < w,
    ;
    assert(0 <= yy * w + xx) by (nonlinear_arith)
        requires
            0 <= yy,
            0 <= xx,
            0 <= w,
    ;
}

/// The canvas laid out row after row.
pub fn flatten(map: &Vec<Vec<u8>>, width: usize, height: usize) -> (r: Vec<u8>)
    requires
        canvas_shape(map@, width as int, height as int),
    ensures
        flattened(r@, map@, width as int, height as int),
{
    let ghost w = width as int;
    let mut out: Vec<u8> = Vec::new();
    let mut y: usize = 0;
    while y < height
        invariant
            y <= height,
            w == width,
            canvas_shape(map@, w, height as int),
            out@.len() == y * w,
            forall|yy: int, xx: int|
                0 <= yy < y && 0 <= xx < w ==> #[trigger] out@[yy * w + xx] == map@[yy]@[xx],
        decreases height - y,
    {
        let row = &map[y];
        let mut x: usize = 0;
        while x < width
            invariant
                y < height,
                x <= width,
                w == width,
                row@ == map@[y as int]@,
                row@.len() == w,
                out@.len() == y * w + x,
                forall|yy: int, xx: int|
                    0 <= yy < y && 0 <= xx < w ==> #[trigger] out@[yy * w + xx] == map@[yy]@[xx],
                forall|xx: int| 0 <= xx < x ==> #[trigger] out@[y * w + xx] == map@[y as int]@[xx],
            decreases width - x,
        {
            let ghost before = out@;
            out.push(row[x]);
            proof {
                assert forall|yy: int, xx: int| 0 <= yy < y && 0 <= xx < w implies #[trigger] out@[yy
                    * w + xx] == map@[yy]@[xx] by {
                    lemma_row_before(yy, xx, y as int, w);
                    assert(out@[yy * w + xx] == before[yy * w + xx]);
                }
                assert forall|xx: int| 0 <= xx < x + 1 implies #[trigger] out@[y * w + xx]
                    == map@[y as int]@[xx] by {
                    if xx < x {
                        assert(out@[y * w + xx] == before[y * w + xx]);
                    }
                }
            }
            x += 1;
        }
        proof {
            assert((y + 1) * w == y * w + w) by (nonlinear_arith);
        }
        y += 1;
    }
    proof {
        assert(height as int * w == w * height as int) by (nonlinear_arith);
    }
    out
}

fn count_rooms_of(rooms: &Vec<Room>, t: RoomType) -> (r: usize)
    ensures
        r == count_type(rooms@, t, rooms@.len() as int),
{
    let mut count: usize = 0;
    let mut i: usize = 0;
    while i < rooms.len()
        invariant
            i <= rooms@.len(),
            count <= i,
            count == count_type(rooms@, t, i as int),
        decreases rooms@.len() - i,
    {
        if rooms[i].room_type == t {
            count += 1;
        }
        i += 1;
    }
    count
}

/// Number of rooms of each category, in `category_order`.
pub fn category_counts(rooms: &Vec<Room>) -> (r: Vec<(RoomType, usize)>)
    ensures
        r@.len() == 6,
        forall|k: int|
            0 <= k < 6 ==> #[trigger] r@[k] == (
                category_order()[k],
                count_type(rooms@, category_order()[k], rooms@.len() as int) as usize,
            ),
{
    let kinds = [
        RoomType::Combat,
        RoomType::Treasure,
        RoomType::Central,
        RoomType::Rest,
        RoomType::Spawn,
        RoomType::Town,
    ];
    let mut out: Vec<(RoomType, usize)> = Vec::new();
    let mut k: usize = 0;
    while k < 6
        invariant
            k <= 6,
            kinds@ == category_order(),
            out@.len() == k,
            forall|j: int|
                0 <= j < k ==> #[trigger] out@[j] == (
                    category_order()[j],
                    count_type(rooms@, category_order()[j], rooms@.len() as int) as usize,
                ),
        decreases 6 - k,
    {
        let t = kinds[k];
        out.push((t, count_rooms_of(rooms, t)));
        k += 1;
    }
    out
}

fn copy_positions(ps: &Vec<Position>) -> (r: Vec<Position>)
    ensures
        r@ == ps@,
{
    let mut out: Vec<Position> = Vec::new();
    let mut i: usize = 0;
    while i < ps.len()
        invariant
            i <= ps@.len(),
            out@ == ps@.take(i as int),
        decreases ps@.len() - i,
    {
        out.push(ps[i]);
        i += 1;
    }
    assert(out@ =~= ps@);
    out
}

/// The level that a finished layout gives.
pub open spec fn level_from(l: LevelResult, g: DungeonGenerator) -> bool {
    &&& l.width == g.width
    &&& l.height == g.height
    &&& flattened(l.tiles@, g.map@, g.width as int, g.height as int)
    &&& l.spawn_points@ == g.spawn_points@
    &&& l.metadata.room_count == g.rooms@.len()
}

fn assemble(
    g: &DungeonGenerator,
    name: String,
    map_type: MapType,
    seed: u64,
    is_starting_town: bool,
) -> (r: LevelResult)
    requires
        finished(*g),
    ensures
        level_ok(r),
        level_from(r, *g),
        r.name == name,
        r.map_type == map_type,
        r.is_starting_town == is_starting_town,
        r.metadata.seed == seed,
        r.metadata.generation_time_ms is None,
        r.special_features@.len() == 0,
        r.entity_ids@.len() == 0,
{
    let w = g.width;
    let h = g.height;
    let tiles = flatten(&g.map, w, h);
    let spawn_points = copy_positions(&g.spawn_points);
    let spawn_position = match best_spawn_point(&spawn_points, w, h) {
        Some(p) => p,
        None => Position { x: 0, y: 0 },
    };
    proof {
        lemma_layout_sides(
            g.rooms_wide as int,
            g.rooms_high as int,
            g.room_width as int,
            g.room_height as int,
            g.central_room_multiplier as int,
        );
        let wi = w as int;
        let hi = h as int;
        assert forall|i: int| 0 <= i < tiles@.len() implies #[trigger] tiles@[i] <= 2 by {
            lemma_fundamental_div_mod(i, wi);
            let y = i / wi;
            let x = i % wi;
            assert(0 <= y < hi) by (nonlinear_arith)
                requires
                    0 <= i < wi * hi,
                    y == i / wi,
                    wi > 0,
            {
                lemma_div_bound(i, wi, hi);
            }
            assert(tiles@[y * wi + x] == g.map@[y]@[x]);
        }
        if tiles_have_floor(tiles@) {
            let i = choose|i: int| 0 <= i < tiles@.len() && #[trigger] tiles@[i] == FLOOR_CODE;
            lemma_fundamental_div_mod(i, wi);
            let y = i / wi;
            let x = i % wi;
            lemma_div_bound(i, wi, hi);
            lemma_mod_pos_bound(i, wi);
            assert(tiles@[y * wi + x] == g.map@[y]@[x]);
            assert(any_floor(g.map@, wi, hi));
            assert forall|k: int| 0 <= k < spawn_points@.len() implies tiles@[(
            #[trigger] spawn_points@[k]).y * wi + spawn_points@[k].x] == FLOOR_CODE by {
                let p = spawn_points@[k];
                assert(floor_at(g.map@, p, wi, hi));
                assert(tiles@[p.y * wi + p.x] == g.map@[p.y as int]@[p.x as int]);
            }
        }
    }
    LevelResult {
        name,
        map_type,
        width: w,
        height: h,
        tiles,
        spawn_position,
        spawn_points,
        is_starting_town,
        metadata: LevelMetadata {
            room_count: g.rooms.len(),
            room_types: category_counts(&g.rooms),
            seed,
            generation_time_ms: None,
        },
        special_features: Vec::new(),
        entity_ids: Vec::new(),
    }
}

proof fn lemma_div_bound(i: int, w: int, h: int)
    requires
        0 <= i < w * h,
        w > 0,
    ensures
        0 <= i / w < h,
{
    lemma_div_pos_is_pos(i, w);
    if i / w >= h {
        lemma_fundamental_div_mod(i, w);
        assert(w * (i / w) >= w * h) by (nonlinear_arith)
            requires
                i / w >= h,
                w > 0,
        ;
        lemma_mod_pos_bound(i, w);
    }
}

/// A finished dungeon layout: placement as the three phases leave it.
pub open spec fn dungeon_layout(g: DungeonGenerator) -> bool {
    &&& finished(g)
    &&& grid_consistent(g)
    &&& central_placement(g)
    &&& ring_of_spawn_rooms(g)
    &&& every_cell_filled(g)
}

/// A finished town layout.
pub open spec fn town_layout(t: TownGenerator) -> bool {
    &&& t.wf()
    &&& finished(t.layout)
    &&& town_planned(t)
    &&& t.layout.rooms@.len() == t.layout.rooms_wide * t.layout.rooms_high
}

/// How a requested central template was applied to the layout: pinned when the
/// catalog has a central template of that name, else the central room is made
/// procedural; nothing pinned when none was requested.
pub open spec fn pin_applied(g: DungeonGenerator, pin: Option<String>) -> bool {
    let ts = g.room_manager.templates@;
    match pin {
        None => g.room_manager.central_room is None && !g.blank_central,
        Some(name) => if exists|i: int|
            0 <= i < ts.len() && (#[trigger] ts[i]).name@ == name@ && ts[i].is_central {
            &&& !g.blank_central
            &&& g.room_manager.central_room matches Some(i) && i < ts.len() && ts[i as int].name@
                == name@ && ts[i as int].is_central
        } else {
            g.blank_central
        },
    }
}

/// The level comes from a finished dungeon layout with the requested central
/// template applied.
pub open spec fn dungeon_level_pinned(l: LevelResult, pin: Option<String>) -> bool {
    exists|g: DungeonGenerator| dungeon_layout(g) && pin_applied(g, pin) && #[trigger] level_from(l, g)
}

/// The level's tiles and spawn points are those of a finished dungeon layout.
pub open spec fn dungeon_level(l: LevelResult) -> bool {
    exists|g: DungeonGenerator| dungeon_layout(g) && #[trigger] level_from(l, g)
}

/// The level's tiles and spawn points are those of a finished town layout.
pub open spec fn town_level(l: LevelResult) -> bool {
    exists|t: TownGenerator| town_layout(t) && #[trigger] level_from(l, t.layout)
}

/// Central span used when a dungeon is asked for without one: two cells a side
/// where the grid allows it.
pub open spec fn default_span(rooms_wide: int, rooms_high: int) -> int {
    if rooms_wide >= 2 && rooms_high >= 2 {
        2
    } else {
        1
    }
}

/// The kind and its parameters describe a level this generator can build.
pub open spec fn params_ok(level_type: MapType, params: LevelParams) -> bool {
    match (level_type, params) {
        (
            MapType::Dungeon,
            LevelParams::Dungeon {
                rooms_wide,
                rooms_high,
                room_width,
                room_height,
                central_room_multiplier,
                ..
            },
        ) => layout_ok(
            rooms_wide as int,
            rooms_high as int,
            room_width as int,
            room_height as int,
            central_room_multiplier as int,
        ),
        (MapType::Town, LevelParams::Town { grid_size, room_width, room_height, .. }) => layout_ok(
            grid_size as int,
            grid_size as int,
            room_width as int,
            room_height as int,
            1,
        ),
        _ => false,
    }
}

/// Canvas width and height that the parameters give.
pub open spec fn params_size(params: LevelParams) -> (int, int) {
    match params {
        LevelParams::Dungeon { rooms_wide, rooms_high, room_width, room_height, .. } => (
            canvas_side(rooms_wide as int, max_side(room_width as int, MIN_ROOM_SIDE as int)),
            canvas_side(rooms_high as int, max_side(room_height as int, MIN_ROOM_SIDE as int)),
        ),
        LevelParams::Town { grid_size, room_width, room_height, .. } => (
            canvas_side(grid_size as int, max_side(room_width as int, MIN_ROOM_SIDE as int)),
            canvas_side(grid_size as int, max_side(room_height as int, MIN_ROOM_SIDE as int)),
        ),
    }
}

/// Whether the parameters ask for a starting town.
pub open spec fn params_starting(params: LevelParams) -> bool {
    match params {
        LevelParams::Town { is_starting_town, .. } => is_starting_town,
        _ => false,
    }
}

/// Entry points that build a whole level from a seed and parameters.
pub struct Generator;

impl Generator {
    /// Builds a level of the given kind; wilderness and instance levels are not
    /// implemented, and parameters of the other kind or out of range fail too.
    pub fn generate(level_type: MapType, name: String, seed: u64, params: LevelParams) -> (r: Result<
        LevelResult,
        GenerationError,
    >)
        ensures
            r is Ok <==> params_ok(level_type, params),
            r is Err ==> (r->Err_0 is GenerationFailure <==> (level_type == MapType::Wilderness
                || level_type == MapType::Instance)),
            r is Err ==> (r->Err_0 is GenerationFailure || r->Err_0 is InvalidParameters),
            r matches Ok(l) ==> {
                &&& level_ok(l)
                &&& l.name == name
                &&& l.map_type == level_type
                &&& (level_type == MapType::Dungeon ==> dungeon_level(l))
                &&& (params matches LevelParams::Dungeon { central_room_template, .. }
                    ==> dungeon_level_pinned(l, central_room_template))
                &&& (level_type == MapType::Town ==> town_level(l))
                &&& l.metadata.seed == seed
                &&& (l.width as int, l.height as int) == params_size(params)
                &&& l.is_starting_town == params_starting(params)
                &&& (l.is_starting_town ==> l.special_features@.len() == 1
                    && l.special_features@[0]@ == STARTING_TOWN_FEATURE@)
                &&& (!l.is_starting_town ==> l.special_features@.len() == 0)
            },
    {
        match (level_type, params) {
            (
                MapType::Dungeon,
                LevelParams::Dungeon {
                    rooms_wide,
                    rooms_high,
                    room_width,
                    room_height,
                    central_room_multiplier,
                    central_room_template,
                },
            ) => {
                if !layout_fits(rooms_wide, rooms_high, room_width, room_height, central_room_multiplier) {
                    return Err(
                        GenerationError::InvalidParameters {
                            reason: "dungeon parameters out of range".to_owned(),
                        },
                    );
                }
                let mut g = DungeonGenerator::new(
                    rooms_wide,
                    rooms_high,
                    room_width,
                    room_height,
                    central_room_multiplier,
                    seed,
                );
                let ghost pin = central_room_template;
                match central_room_template {
                    Some(template_name) => {
                        let pinned = g.set_central_room_template(template_name.as_str());
                        if pinned.is_err() {
                            g.blank_central = true;
                        }
                        assert(pin_applied(g, Some(template_name)));
                    },
                    None => {},
                }
                let _canvas = g.generate();
                let level = assemble(&g, name, MapType::Dungeon, seed, false);
                assert(dungeon_layout(g) && level_from(level, g));
                assert(pin_applied(g, pin));
                Ok(level)
            },
            (
                MapType::Town,
                LevelParams::Town { grid_size, room_width, room_height, is_starting_town },
            ) => {
                if !layout_fits(grid_size, grid_size, room_width, room_height, 1) {
                    return Err(
                        GenerationError::InvalidParameters {
                            reason: "town parameters out of range".to_owned(),
                        },
                    );
                }
                let mut t = TownGenerator::with_seed(grid_size, room_width, room_height, seed);
                let _canvas = t.generate();
                let mut level = assemble(&t.layout, name, MapType::Town, seed, is_starting_town);
                if is_starting_town {
                    level.special_features.push(STARTING_TOWN_FEATURE.to_owned());
                }
                assert(town_layout(t) && level_from(level, t.layout));
                Ok(level)
            },
            (MapType::Wilderness, _) | (MapType::Instance, _) => Err(
                GenerationError::GenerationFailure {
                    reason: "level type not implemented".to_owned(),
                },
            ),
            _ => Err(
                GenerationError::InvalidParameters {
                    reason: "parameters do not match the level type".to_owned(),
                },
            ),
        }
    }

    /// A dungeon of `rooms_wide` x `rooms_high` rooms, with a central room two
    /// cells a side where the grid allows it.
    pub fn generate_dungeon(
        name: String,
        seed: u64,
        rooms_wide: usize,
        rooms_high: usize,
        room_width: usize,
        room_height: usize,
    ) -> (r: Result<LevelResult, GenerationError>)
        ensures
            r is Ok <==> layout_ok(
                rooms_wide as int,
                rooms_high as int,
                room_width as int,
                room_height as int,
                default_span(rooms_wide as int, rooms_high as int),
            ),
            r matches Ok(l) ==> {
                &&& level_ok(l)
                &&& l.name == name
                &&& l.map_type == MapType::Dungeon
                &&& dungeon_level(l)
                &&& l.metadata.seed == seed
                &&& l.width == canvas_side(
                    rooms_wide as int,
                    max_side(room_width as int, MIN_ROOM_SIDE as int),
                )
                &&& l.height == canvas_side(
                    rooms_high as int,
                    max_side(room_height as int, MIN_ROOM_SIDE as int),
                )
                &&& !l.is_starting_town
            },
    {
        let span: usize = if rooms_wide >= 2 && rooms_high >= 2 {
            2
        } else {
            1
        };
        Generator::generate(
            MapType::Dungeon,
            name,
            seed,
            LevelParams::Dungeon {
                rooms_wide,
                rooms_high,
                room_width,
                room_height,
                central_room_multiplier: span,
                central_room_template: None,
            },
        )
    }

    /// A town of `town_grid_size` x `town_grid_size` areas.
    pub fn generate_town(
        name: String,
        seed: u64,
        town_grid_size: usize,
        room_width: usize,
        room_height: usize,
        is_starting_town: bool,
    ) -> (r: Result<LevelResult, GenerationError>)
        ensures
            r is Ok <==> layout_ok(
                town_grid_size as int,
                town_grid_size as int,
                room_width as int,
                room_height as int,
                1,
            ),
            r matches Ok(l) ==> {
                &&& level_ok(l)
                &&& l.name == name
                &&& l.map_type == MapType::Town
                &&& town_level(l)
                &&& l.metadata.seed == seed
                &&& l.width == canvas_side(
                    town_grid_size as int,
                    max_side(room_width as int, MIN_ROOM_SIDE as int),
                )
                &&& l.height == canvas_side(
                    town_grid_size as int,
                    max_side(room_height as int, MIN_ROOM_SIDE as int),
                )
                &&& l.is_starting_town == is_starting_town
                &&& (is_starting_town ==> l.special_features@.len() == 1
                    && l.special_features@[0]@ == STARTING_TOWN_FEATURE@)
            },
    {
        Generator::generate(
            MapType::Town,
            name,
            seed,
            LevelParams::Town {
                grid_size: town_grid_size,
                room_width,
                room_height,
                is_starting_town,
            },
        )
    }
}

} // verus!
