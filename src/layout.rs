use vstd::prelude::*;

use crate::room::{max_side, MIN_ROOM_SIDE};

verus! {

/// Canvas side for `n` cells of `side` tiles that share their border rows.
pub open spec fn canvas_side(n: int, side: int) -> int {
    side + (n - 1) * (side - 1)
}

/// Canvas offset of grid cell `g` when cells of `side` tiles share borders.
pub open spec fn cell_offset(g: int, side: int) -> int {
    g * (side - 1)
}

/// Side of the central room spanning `m` cells.
pub open spec fn central_side(m: int, side: int) -> int {
    m * side - (m - 1)
}

/// Grid dimensions, room size and central span that give a level: a non-empty
/// grid, a central span that fits in it, and a canvas whose flattened tile array
/// machine integers can count and index.
pub open spec fn layout_ok(rooms_wide: int, rooms_high: int, room_w: int, room_h: int, m: int) -> bool {
    let rw = max_side(room_w, MIN_ROOM_SIDE as int);
    let rh = max_side(room_h, MIN_ROOM_SIDE as int);
    &&& 1 <= rooms_wide
    &&& 1 <= rooms_high
    &&& 1 <= m <= rooms_wide
    &&& m <= rooms_high
    &&& canvas_side(rooms_wide, rw) * canvas_side(rooms_high, rh) <= usize::MAX
}

/// Whether a layout is valid (see `layout_ok`).
pub fn layout_fits(rooms_wide: usize, rooms_high: usize, room_w: usize, room_h: usize, m: usize) -> (r:
    bool)
    ensures
        r == layout_ok(rooms_wide as int, rooms_high as int, room_w as int, room_h as int, m as int),
{
    let rw = if room_w >= MIN_ROOM_SIDE {
        room_w
    } else {
        MIN_ROOM_SIDE
    };
    let rh = if room_h >= MIN_ROOM_SIDE {
        room_h
    } else {
        MIN_ROOM_SIDE
    };
    if rooms_wide < 1 || rooms_high < 1 || m < 1 || m > rooms_wide || m > rooms_high {
        return false;
    }
    proof {
        lemma_side_parts(rooms_wide as int, rw as int);
        lemma_side_parts(rooms_high as int, rh as int);
        assert((rooms_wide - 1) as int * (rw - 1) as int <= usize::MAX as int * usize::MAX as int)
            by (nonlinear_arith)
            requires
                rooms_wide <= usize::MAX,
                rw <= usize::MAX,
                rooms_wide >= 1,
                rw >= 1,
        ;
        assert((rooms_high - 1) as int * (rh - 1) as int <= usize::MAX as int * usize::MAX as int)
            by (nonlinear_arith)
            requires
                rooms_high <= usize::MAX,
                rh <= usize::MAX,
                rooms_high >= 1,
                rh >= 1,
        ;
        assert(usize::MAX as int * usize::MAX as int + usize::MAX as int <= u128::MAX as int)
            by (nonlinear_arith)
            requires
                usize::MAX <= u64::MAX,
        ;
    }
    let w: u128 = rw as u128 + (rooms_wide - 1) as u128 * (rw - 1) as u128;
    let h: u128 = rh as u128 + (rooms_high - 1) as u128 * (rh - 1) as u128;
    if w > usize::MAX as u128 || h > usize::MAX as u128 {
        proof {
            if w as int * h as int <= usize::MAX {
                lemma_product_bounds_sides(w as int, h as int);
            }
        }
        return false;
    }
    proof {
        assert(w * h <= u64::MAX as int * u64::MAX as int) by (nonlinear_arith)
            requires
                w <= u64::MAX,
                h <= u64::MAX,
                0 <= w,
                0 <= h,
        ;
    }
    w * h <= usize::MAX as u128
}

/// A canvas side is at least one room side, and its part beyond that is non-negative.
pub proof fn lemma_side_parts(n: int, side: int)
    requires
        1 <= n,
        1 <= side,
    ensures
        0 <= (n - 1) * (side - 1),
        side <= canvas_side(n, side),
{
    assert(0 <= (n - 1) * (side - 1)) by (nonlinear_arith)
        requires
            1 <= n,
            1 <= side,
    ;
}

/// Two sides of at least one tile whose product fits a machine integer fit one each.
pub proof fn lemma_product_bounds_sides(w: int, h: int)
    requires
        1 <= w,
        1 <= h,
        w * h <= usize::MAX,
    ensures
        w <= usize::MAX,
        h <= usize::MAX,
{
    assert(w <= w * h && h <= w * h) by (nonlinear_arith)
        requires
            1 <= w,
            1 <= h,
    ;
}

/// The sides of a valid layout fit machine integers, and are at least a room side.
pub proof fn lemma_layout_sides(rooms_wide: int, rooms_high: int, rw: int, rh: int, m: int)
    requires
        layout_ok(rooms_wide, rooms_high, rw, rh, m),
    ensures
        ({
            let w = canvas_side(rooms_wide, max_side(rw, MIN_ROOM_SIDE as int));
            let h = canvas_side(rooms_high, max_side(rh, MIN_ROOM_SIDE as int));
            &&& MIN_ROOM_SIDE <= max_side(rw, MIN_ROOM_SIDE as int) <= w <= usize::MAX
            &&& MIN_ROOM_SIDE <= max_side(rh, MIN_ROOM_SIDE as int) <= h <= usize::MAX
            &&& 0 <= (rooms_wide - 1) * (max_side(rw, MIN_ROOM_SIDE as int) - 1)
            &&& 0 <= (rooms_high - 1) * (max_side(rh, MIN_ROOM_SIDE as int) - 1)
        }),
{
    let a = max_side(rw, MIN_ROOM_SIDE as int);
    let b = max_side(rh, MIN_ROOM_SIDE as int);
    lemma_side_parts(rooms_wide, a);
    lemma_side_parts(rooms_high, b);
    lemma_product_bounds_sides(canvas_side(rooms_wide, a), canvas_side(rooms_high, b));
}

/// A cell of the grid, with a room of `side` tiles at its offset, stays on the canvas.
pub proof fn lemma_cell_fits(g: int, n: int, side: int)
    requires
        0 <= g < n,
        1 <= side,
    ensures
        0 <= cell_offset(g, side),
        cell_offset(g, side) + side <= canvas_side(n, side),
{
    assert(0 <= g * (side - 1)) by (nonlinear_arith)
        requires
            0 <= g,
            1 <= side,
    ;
    assert(g * (side - 1) + side <= side + (n - 1) * (side - 1)) by (nonlinear_arith)
        requires
            0 <= g < n,
            1 <= side,
    ;
}

/// The central block of `m` cells starting at cell `g` stays on the canvas, and is
/// at least one room wide.
pub proof fn lemma_central_fits(g: int, m: int, n: int, side: int)
    requires
        0 <= g,
        g + m <= n,
        1 <= m,
        1 <= side,
    ensures
        0 <= cell_offset(g, side),
        cell_offset(g, side) + central_side(m, side) <= canvas_side(n, side),
        central_side(m, side) >= side,
        central_side(m, side) == m * (side - 1) + 1,
        0 <= m * (side - 1),
{
    assert(m * side - (m - 1) == m * (side - 1) + 1) by (nonlinear_arith);
    assert(0 <= m * (side - 1)) by (nonlinear_arith)
        requires
            1 <= m,
            1 <= side,
    ;
    assert(0 <= g * (side - 1)) by (nonlinear_arith)
        requires
            0 <= g,
            1 <= side,
    ;
    assert(g * (side - 1) + (m * side - (m - 1)) <= side + (n - 1) * (side - 1)) by (nonlinear_arith)
        requires
            0 <= g,
            g + m <= n,
            1 <= m,
            1 <= side,
    ;
    assert(m * side - (m - 1) >= side) by (nonlinear_arith)
        requires
            1 <= m,
            1 <= side,
    ;
}

} // verus!
