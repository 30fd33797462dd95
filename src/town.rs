use vstd::prelude::*;

use crate::canvas::fits;
use crate::dungeon::{
    cell_origin, is_blank_room, lemma_blank_relabel, relabelled_from, template_fits, finished, same_dims, single_central, try_template, DungeonGenerator,
};
use crate::layout::{canvas_side, layout_ok, lemma_cell_fits};
use crate::manager::{first_named_at, RoomManager};
use crate::parser::{parse_outcome, ParsedRoom};
use crate::room::{max_side, placed_from, pos, Room, MIN_ROOM_SIDE};
use crate::template::RoomTemplate;
use crate::tile::Position;

verus! {

/// The building that the 3 x 3 town plan puts at column `col`, row `row`, with a
/// home where the plan shows the square (the square itself goes to the middle
/// cell of the grid).
pub open spec fn planned_building(col: int, row: int) -> &'static str {
    if row == 0 {
        if col == 1 {
            "blacksmith"
        } else {
            "residential"
        }
    } else if row == 1 {
        if col == 0 {
            "market"
        } else if col == 1 {
            "residential"
        } else {
            "general_store"
        }
    } else {
        if col == 1 {
            "tavern"
        } else {
            "town_gate"
        }
    }
}

/// The building planned for grid cell (gx, gy): the 3 x 3 plan repeated over the grid.
pub fn building_for(gx: usize, gy: usize) -> (r: &'static str)
    ensures
        r == planned_building(gx as int % 3, gy as int % 3),
{
    let col = gx % 3;
    let row = gy % 3;
    if row == 0 {
        if col == 1 {
            "blacksmith"
        } else {
            "residential"
        }
    } else if row == 1 {
        if col == 0 {
            "market"
        } else if col == 1 {
            "residential"
        } else {
            "general_store"
        }
    } else {
        if col == 1 {
            "tavern"
        } else {
            "town_gate"
        }
    }
}

/// The template named for cell (x, y) of a town of `s` x `s` cells: the square
/// in the middle cell, else the planned building.
pub open spec fn town_cell_name(s: int, x: int, y: int) -> &'static str {
    if x == s / 2 && y == s / 2 {
        "town_square"
    } else {
        planned_building(x % 3, y % 3)
    }
}

/// Room `i` sits at cell (x, y), is central exactly in the middle cell, and when
/// it came from a template, that is the one named for the cell.
pub open spec fn town_cell_ok(t: TownGenerator, x: int, y: int, i: int) -> bool {
    let g = t.layout;
    &&& 0 <= i < g.rooms@.len()
    &&& g.rooms@[i].position == cell_origin(g.room_width as int, g.room_height as int, x, y)
    &&& (g.rooms@[i].is_central <==> (x == g.rooms_wide / 2 && y == g.rooms_wide / 2))
    &&& (g.rooms@[i].template_name matches Some(n) ==> n@ == town_cell_name(
        g.rooms_wide as int,
        x,
        y,
    )@)
    &&& area_ok(
        g.rooms@[i],
        g.room_manager.templates@,
        g.room_width as int,
        g.room_height as int,
        g.width as int,
        g.height as int,
        (x as usize, y as usize),
        town_cell_name(g.rooms_wide as int, x, y)@,
        x == g.rooms_wide / 2 && y == g.rooms_wide / 2,
    )
}

/// How the room `r` for cell `cell` came about: from the first template called
/// `name` when it reads and fits there, else procedural.
pub open spec fn area_ok(
    r: Room,
    ts: Seq<RoomTemplate>,
    rw: int,
    rh: int,
    width: int,
    height: int,
    cell: (usize, usize),
    name: Seq<char>,
    central: bool,
) -> bool {
    let o = cell_origin(rw, rh, cell.0 as int, cell.1 as int);
    if exists|i: int|
        first_named_at(ts, name, i) && template_fits(
            #[trigger] ts[i],
            o.x as int,
            o.y as int,
            rw,
            rh,
            width,
            height,
        ) {
        exists|i: int|
            first_named_at(ts, name, i) && #[trigger] relabelled_from(
                r,
                ts[i],
                o.x as int,
                o.y as int,
                rw,
                rh,
            )
    } else {
        is_blank_room(r, central)
    }
}

/// Cell (x, y) holds a room as `town_cell_ok` says.
pub open spec fn town_cell_filled(t: TownGenerator, x: int, y: int) -> bool {
    exists|i: int| #[trigger] town_cell_ok(t, x, y, i)
}

/// Every cell of the town holds a room as `town_cell_ok` says.
pub open spec fn town_planned(t: TownGenerator) -> bool {
    forall|x: int, y: int|
        0 <= x < t.layout.rooms_wide && 0 <= y < t.layout.rooms_wide ==> #[trigger] town_cell_filled(
            t,
            x,
            y,
        )
}

/// A town: the town square in the middle cell and buildings in the others.
pub struct TownGenerator {
    pub layout: DungeonGenerator,
}

impl TownGenerator {
    pub open spec fn wf(&self) -> bool {
        &&& self.layout.wf()
        &&& self.layout.rooms_wide == self.layout.rooms_high
        &&& self.layout.central_room_multiplier == 1
    }

    /// A town of `town_size` x `town_size` areas of at least 20 x 20, from seed 0.
    pub fn new(town_size: usize, room_width: usize, room_height: usize) -> (r: Self)
        requires
            layout_ok(town_size as int, town_size as int, room_width as int, room_height as int, 1),
        ensures
            r.wf(),
            r.layout.rooms@.len() == 0,
            r.layout.width == canvas_side(
                town_size as int,
                max_side(room_width as int, MIN_ROOM_SIDE as int),
            ),
            r.layout.height == canvas_side(
                town_size as int,
                max_side(room_height as int, MIN_ROOM_SIDE as int),
            ),
    {
        TownGenerator::with_seed(town_size, room_width, room_height, 0)
    }

    /// A town of `town_size` x `town_size` areas of at least 20 x 20.
    pub fn with_seed(town_size: usize, room_width: usize, room_height: usize, seed: u64) -> (r: Self)
        requires
            layout_ok(town_size as int, town_size as int, room_width as int, room_height as int, 1),
        ensures
            r.wf(),
            r.layout.rooms@.len() == 0,
            r.layout.width == canvas_side(
                town_size as int,
                max_side(room_width as int, MIN_ROOM_SIDE as int),
            ),
            r.layout.height == canvas_side(
                town_size as int,
                max_side(room_height as int, MIN_ROOM_SIDE as int),
            ),
    {
        TownGenerator {
            layout: DungeonGenerator::build(
                town_size,
                town_size,
                room_width,
                room_height,
                1,
                seed,
                RoomManager::for_towns(),
            ),
        }
    }

    /// A room for a town cell from the named template, or a procedural one.
    fn area_room(&self, name: &str, gx: usize, gy: usize, central: bool) -> (r: Room)
        requires
            self.wf(),
            gx < self.layout.rooms_wide,
            gy < self.layout.rooms_high,
        ensures
            r.wf(),
            fits(r, self.layout.width as int, self.layout.height as int),
            r.width >= self.layout.room_width,
            r.height >= self.layout.room_height,
            r.is_central == central,
            r.position == cell_origin(
                self.layout.room_width as int,
                self.layout.room_height as int,
                gx as int,
                gy as int,
            ),
            r.template_name matches Some(n) ==> n@ == name@,
            area_ok(
                r,
                self.layout.room_manager.templates@,
                self.layout.room_width as int,
                self.layout.room_height as int,
                self.layout.width as int,
                self.layout.height as int,
                (gx, gy),
                name@,
                central,
            ),
    {
        let g = &self.layout;
        let rw = g.room_width;
        let rh = g.room_height;
        proof {
            lemma_cell_fits(gx as int, g.rooms_wide as int, rw as int);
            lemma_cell_fits(gy as int, g.rooms_high as int, rh as int);
        }
        let x = gx * (rw - 1);
        let y = gy * (rh - 1);
        let ghost ts = g.room_manager.templates@;
        let template: Option<RoomTemplate> = match g.room_manager.get_template_by_name(name) {
            Some(t) => Some(*t),
            None => None,
        };
        let ghost first = if template is Some {
            choose|i: int|
                0 <= i < ts.len() && ts[i] == template->Some_0 && template->Some_0.name@ == name@
                    && forall|k: int| 0 <= k < i ==> (#[trigger] ts[k]).name@ != name@
        } else {
            0
        };
        proof {
            if template is Some {
                assert(first_named_at(ts, name@, first));
                assert forall|j: int| first_named_at(ts, name@, j) implies j == first by {
                    if j < first {
                        assert(ts[j].name@ != name@);
                    }
                    if first < j {
                        assert(ts[first].name@ != name@);
                    }
                }
            } else {
                assert forall|j: int| !first_named_at(ts, name@, j) by {
                    if 0 <= j < ts.len() {
                        assert(ts[j].name@ != name@);
                    }
                }
            }
        }
        let tried = match template {
            Some(t) => try_template(&g.room_manager, &t, x, y, rw, rh, g.width, g.height),
            None => None,
        };
        let built = match tried {
            Some(r) => r,
            None => Room::new(x, y, rw, rh, central),
        };
        let mut room = built;
        room.is_central = central;
        proof {
            assert(pos(x as int, y as int) == cell_origin(rw as int, rh as int, gx as int, gy as int));
            if tried is Some {
                let t = template->Some_0;
                let p = choose|p: ParsedRoom|
                    #![trigger parse_outcome(t, Ok(p))]
                    parse_outcome(t, Ok(p)) && placed_from(built, p, x as int, y as int, rw as int, rh as int);
                assert(Room { is_central: p.is_central, room_type: p.room_type, ..room } == built);
                assert(relabelled_from(room, ts[first], x as int, y as int, rw as int, rh as int));
            } else {
                lemma_blank_relabel(built, room, central);
            }
        }
        room
    }

    /// The town square first, in the middle cell, then a building in every other
    /// cell in row-major order.
    fn place_town_areas(&mut self)
        requires
            old(self).wf(),
            old(self).layout.rooms@.len() == 0,
        ensures
            final(self).wf(),
            single_central(final(self).layout.rooms@),
            same_dims(final(self).layout, old(self).layout),
            final(self).layout.rooms@.len() == old(self).layout.rooms_wide * old(self).layout.rooms_high,
            town_planned(*final(self)),
    {
        let s = self.layout.rooms_wide;
        let mid = s / 2;
        let square = self.area_room("town_square", mid, mid, true);
        self.layout.rooms.push(square);
        proof {
            assert forall|i: int| 0 <= i < self.layout.rooms@.len() implies (
            #[trigger] self.layout.rooms@[i]).wf() && fits(
                self.layout.rooms@[i],
                self.layout.width as int,
                self.layout.height as int,
            ) by {
                assert(self.layout.rooms@[i] == square);
            }
        }
        self.layout.mark_block(mid, mid, 1, 0);
        assert(town_cell_ok(*self, mid as int, mid as int, 0));
        assert(town_cell_filled(*self, mid as int, mid as int));
        let mut gy: usize = 0;
        while gy < s
            invariant
                self.wf(),
                single_central(self.layout.rooms@),
                same_dims(self.layout, old(self).layout),
                s == self.layout.rooms_wide,
                mid == s / 2,
                gy <= s,
                forall|x: int, y: int|
                    0 <= x < s && 0 <= y < s && (y < gy || (x == mid && y == mid)) ==> #[trigger] town_cell_filled(
                        *self,
                        x,
                        y,
                    ),
                self.layout.rooms@.len() == 1 + gy * s - (if gy > mid {
                    1int
                } else {
                    0
                }),
            decreases s - gy,
        {
            let mut gx: usize = 0;
            while gx < s
                invariant
                    self.wf(),
                    single_central(self.layout.rooms@),
                    same_dims(self.layout, old(self).layout),
                    s == self.layout.rooms_wide,
                    mid == s / 2,
                    gy < s,
                    gx <= s,
                    forall|x: int, y: int|
                        0 <= x < s && 0 <= y < s && (y < gy || (y == gy && x < gx) || (x == mid && y
                            == mid)) ==> #[trigger] town_cell_filled(*self, x, y),
                    self.layout.rooms@.len() == 1 + gy * s + gx - (if gy > mid || (gy == mid && gx
                        > mid) {
                        1int
                    } else {
                        0
                    }),
                decreases s - gx,
            {
                if !(gx == mid && gy == mid) {
                    let room = self.area_room(building_for(gx, gy), gx, gy, false);
                    let ghost before = *self;
                    self.layout.push_cell_room(room, gx, gy);
                    proof {
                        let n = before.layout.rooms@.len() as int;
                        assert(self.layout.rooms@[n] == room);
                        assert(town_cell_ok(*self, gx as int, gy as int, n));
                        assert forall|x: int, y: int|
                            0 <= x < s && 0 <= y < s && (y < gy || (y == gy && x < gx + 1) || (x
                                == mid && y == mid)) implies #[trigger] town_cell_filled(*self, x, y) by {
                            if !(x == gx && y == gy) {
                                assert(town_cell_filled(before, x, y));
                                let i = choose|i: int| #[trigger] town_cell_ok(before, x, y, i);
                                assert(self.layout.rooms@[i] == before.layout.rooms@[i]);
                                assert(town_cell_ok(*self, x, y, i));
                            }
                        }
                    }
                }
                gx += 1;
            }
            proof {
                assert((gy + 1) * s == gy * s + s) by (nonlinear_arith);
            }
            gy += 1;
        }
    }

    /// Lays out the town, draws it, joins the areas with doors and derives the spawn
    /// points; returns the canvas, row by row.
    pub fn generate(&mut self) -> (r: Vec<Vec<u8>>)
        requires
            old(self).wf(),
            old(self).layout.rooms@.len() == 0,
        ensures
            final(self).wf(),
            finished(final(self).layout),
            same_dims(final(self).layout, old(self).layout),
            final(self).layout.rooms@.len() == old(self).layout.rooms_wide * old(self).layout.rooms_high,
            town_planned(*final(self)),
            r@.len() == final(self).layout.map@.len(),
            forall|y: int| 0 <= y < r@.len() ==> (#[trigger] r@[y])@ == final(self).layout.map@[y]@,
    {
        self.place_town_areas();
        let ghost placed = *self;
        self.layout.finish_level();
        proof {
            assert forall|x: int, y: int|
                0 <= x < self.layout.rooms_wide && 0 <= y < self.layout.rooms_wide implies #[trigger] town_cell_filled(
                *self,
                x,
                y,
            ) by {
                assert(town_cell_filled(placed, x, y));
                let i = choose|i: int| #[trigger] town_cell_ok(placed, x, y, i);
                assert(town_cell_ok(*self, x, y, i));
            }
        }
        crate::canvas::copy_canvas(&self.layout.map)
    }

    /// All spawn points of the town.
    pub fn get_spawn_points(&self) -> (r: &Vec<Position>)
        ensures
            r@ == self.layout.spawn_points@,
    {
        &self.layout.spawn_points
    }

    /// A spawn point drawn with the town's random source.
    pub fn get_random_spawn_point(&mut self) -> (r: Option<Position>)
        ensures
            r is None <==> old(self).layout.spawn_points@.len() == 0,
            r matches Some(p) ==> old(self).layout.spawn_points@.contains(p),
    {
        self.layout.get_random_spawn_point()
    }

    /// The middle cell of the town square.
    pub fn get_primary_spawn_point(&self) -> (r: Option<Position>)
        requires
            self.wf(),
        ensures
            r is None <==> forall|i: int|
                0 <= i < self.layout.rooms@.len() ==> !(#[trigger] self.layout.rooms@[i]).is_central,
            r matches Some(p) ==> exists|i: int|
                0 <= i < self.layout.rooms@.len() && self.layout.rooms@[i].is_central && p == pos(
                    self.layout.rooms@[i].position.x + self.layout.rooms@[i].width / 2,
                    self.layout.rooms@[i].position.y + self.layout.rooms@[i].height / 2,
                ),
    {
        self.layout.get_central_room_position()
    }
}

} // verus!
