use vstd::prelude::*;

use crate::dungeon::{cell_ok, in_central_block, DungeonGenerator};
use crate::room::pos;
use crate::layout::canvas_side;
use crate::tile::Position;

verus! {

/// A 3 x 2 dungeon of 20 x 20 rooms from seed 12345: its player spawn (the middle
/// of a border room) and the middle of its central room.
pub fn generate_example_map() -> (r: (Option<Position>, Option<Position>))
    ensures
        r.0 is Some,
        r.1 is Some,
{
    assert(canvas_side(3, 20) == 58);
    assert(canvas_side(2, 20) == 39);
    assert(58 * 39 == 2262) by (nonlinear_arith);
    let mut generator = DungeonGenerator::new(3, 2, 20, 20, 2, 12345);
    let _map = generator.generate();
    proof {
        assert(!in_central_block(generator, 2, 0));
        assert(cell_ok(generator, 2, 0, generator.room_grid@[0]@[2]));
        let i = generator.room_grid@[0]@[2]->Some_0 as int;
        assert(generator.rooms@[i].position == pos(38, 0));
        assert(generator.rooms@[0].position == pos(0, 0));
        assert(!generator.rooms@[i].is_central);
    }
    let spawn = generator.get_spawn_room();
    let center = generator.get_central_room_position();
    (spawn, center)
}

/// The same layout from seed 0: its player spawn and the middle of its central room.
pub fn run_example() -> (r: (Option<Position>, Option<Position>))
    ensures
        r.0 is Some,
        r.1 is Some,
{
    assert(canvas_side(3, 20) == 58);
    assert(canvas_side(2, 20) == 39);
    assert(58 * 39 == 2262) by (nonlinear_arith);
    let mut generator = DungeonGenerator::new(3, 2, 20, 20, 2, 0);
    let _map = generator.generate();
    proof {
        assert(!in_central_block(generator, 2, 0));
        assert(cell_ok(generator, 2, 0, generator.room_grid@[0]@[2]));
        let i = generator.room_grid@[0]@[2]->Some_0 as int;
        assert(generator.rooms@[i].position == pos(38, 0));
        assert(generator.rooms@[0].position == pos(0, 0));
        assert(!generator.rooms@[i].is_central);
    }
    let spawn = generator.get_spawn_room();
    let center = generator.get_central_room_position();
    (spawn, center)
}

} // verus!
