//! Where the cells that a triangle covers lie: inside its bounding box, and off
//! its last column and last row.

use vstd::prelude::*;
use crate::grid::Grid;
use crate::pixel::Pixel;
use crate::raster::{
    edge_holds, fill_triangle_shape, inside_edges, lemma_paint_at, lemma_shared_edge_no_gap,
    lemma_shared_edge_no_overlap, max3, min3, orient2d, triangle_covers,
};

verus! {

/// The edge function does not change when the corners change places in a
/// circle.
pub proof fn lemma_orient_cycle(ux: int, uy: int, vx: int, vy: int, wx: int, wy: int)
    ensures
        orient2d(vx, vy, wx, wy, ux, uy) == orient2d(ux, uy, vx, vy, wx, wy),
{
    assert((wx - vx) * (uy - vy) - (wy - vy) * (ux - vx) == (vx - ux) * (wy - uy) - (vy - uy) * (wx
        - ux)) by (nonlinear_arith);
}

/// A point on the inner side of the two edges that meet in the corner `u` of a
/// triangle lies on the side of `u` on which the triangle lies.
proof fn lemma_corner_bounds(
    ux: int,
    uy: int,
    vx: int,
    vy: int,
    wx: int,
    wy: int,
    px: int,
    py: int,
)
    requires
        orient2d(ux, uy, vx, vy, wx, wy) > 0,
        edge_holds(wx, wy, ux, uy, px, py),
        edge_holds(ux, uy, vx, vy, px, py),
    ensures
        ux >= vx && ux >= wx ==> px < ux,
        ux <= vx && ux <= wx ==> px >= ux,
        uy >= vy && uy >= wy ==> py < uy,
        uy <= vy && uy <= wy ==> py >= uy,
{
    let a = ux - vx;
    let b = ux - wx;
    let al = vy - uy;
    let be = wy - uy;
    let dx = px - ux;
    let dy = py - uy;
    assert(orient2d(ux, uy, vx, vy, px, py) == -a * dy - al * dx) by (nonlinear_arith)
        requires
            orient2d(ux, uy, vx, vy, px, py) == (vx - ux) * (py - uy) - (vy - uy) * (px - ux),
            a == ux - vx,
            al == vy - uy,
            dx == px - ux,
            dy == py - uy,
    ;
    assert(orient2d(wx, wy, ux, uy, px, py) == b * dy + be * dx) by (nonlinear_arith)
        requires
            orient2d(wx, wy, ux, uy, px, py) == (ux - wx) * (py - wy) - (uy - wy) * (px - wx),
            b == ux - wx,
            be == wy - uy,
            dx == px - ux,
            dy == py - uy,
    ;
    assert(orient2d(ux, uy, vx, vy, wx, wy) == al * b - a * be) by (nonlinear_arith)
        requires
            orient2d(ux, uy, vx, vy, wx, wy) == (vx - ux) * (wy - uy) - (vy - uy) * (wx - ux),
            a == ux - vx,
            b == ux - wx,
            al == vy - uy,
            be == wy - uy,
    ;
    lemma_corner(a, b, al, be, dx, dy);
}

/// The same, with the corner as the origin.
proof fn lemma_corner(a: int, b: int, al: int, be: int, dx: int, dy: int)
    requires
        al * b - a * be > 0,
        -a * dy - al * dx >= 0,
        b * dy + be * dx >= 0,
        -a * dy - al * dx > 0 || al < 0 || (al == 0 && a < 0),
        b * dy + be * dx > 0 || be > 0 || (be == 0 && b > 0),
    ensures
        a >= 0 && b >= 0 ==> dx < 0,
        a <= 0 && b <= 0 ==> dx >= 0,
        al <= 0 && be <= 0 ==> dy < 0,
        al >= 0 && be >= 0 ==> dy >= 0,
{
    assert(a >= 0 && b >= 0 ==> dx < 0) by (nonlinear_arith)
        requires
            al * b - a * be > 0,
            -a * dy - al * dx >= 0,
            b * dy + be * dx >= 0,
            -a * dy - al * dx > 0 || al < 0 || (al == 0 && a < 0),
            b * dy + be * dx > 0 || be > 0 || (be == 0 && b > 0),
    ;
    assert(a <= 0 && b <= 0 ==> dx >= 0) by (nonlinear_arith)
        requires
            al * b - a * be > 0,
            -a * dy - al * dx >= 0,
            b * dy + be * dx >= 0,
    ;
    assert(al <= 0 && be <= 0 ==> dy < 0) by (nonlinear_arith)
        requires
            al * b - a * be > 0,
            -a * dy - al * dx >= 0,
            b * dy + be * dx >= 0,
            -a * dy - al * dx > 0 || al < 0 || (al == 0 && a < 0),
            b * dy + be * dx > 0 || be > 0 || (be == 0 && b > 0),
    ;
    assert(al >= 0 && be >= 0 ==> dy >= 0) by (nonlinear_arith)
        requires
            al * b - a * be > 0,
            -a * dy - al * dx >= 0,
            b * dy + be * dx >= 0,
    ;
}

/// The edge function changes its sign when two corners change places.
pub proof fn lemma_orient_swap(ux: int, uy: int, vx: int, vy: int, wx: int, wy: int)
    ensures
        orient2d(ux, uy, wx, wy, vx, vy) == -orient2d(ux, uy, vx, vy, wx, wy),
{
    assert((wx - ux) * (vy - uy) - (wy - uy) * (vx - ux) == -((vx - ux) * (wy - uy) - (vy - uy) * (
    wx - ux))) by (nonlinear_arith);
}

/// A triangle without area has no point on the inner side of all its edges.
pub proof fn lemma_flat_covers_nothing(
    ux: int,
    uy: int,
    vx: int,
    vy: int,
    wx: int,
    wy: int,
    px: int,
    py: int,
)
    requires
        orient2d(ux, uy, vx, vy, wx, wy) == 0,
    ensures
        !inside_edges(ux, uy, vx, vy, wx, wy, px, py),
{
    let a = ux - vx;
    let b = ux - wx;
    let al = vy - uy;
    let be = wy - uy;
    let dx = px - ux;
    let dy = py - uy;
    let e0 = orient2d(vx, vy, wx, wy, px, py);
    let e1 = orient2d(wx, wy, ux, uy, px, py);
    let e2 = orient2d(ux, uy, vx, vy, px, py);
    assert(e2 == -a * dy - al * dx) by (nonlinear_arith)
        requires
            e2 == (vx - ux) * (py - uy) - (vy - uy) * (px - ux),
            a == ux - vx,
            al == vy - uy,
            dx == px - ux,
            dy == py - uy,
    ;
    assert(e1 == b * dy + be * dx) by (nonlinear_arith)
        requires
            e1 == (ux - wx) * (py - wy) - (uy - wy) * (px - wx),
            b == ux - wx,
            be == wy - uy,
            dx == px - ux,
            dy == py - uy,
    ;
    assert(e0 == (a - b) * (dy - al) - (be - al) * (dx + a)) by (nonlinear_arith)
        requires
            e0 == (wx - vx) * (py - vy) - (wy - vy) * (px - vx),
            a == ux - vx,
            b == ux - wx,
            al == vy - uy,
            be == wy - uy,
            dx == px - ux,
            dy == py - uy,
    ;
    assert(al * b - a * be == 0) by (nonlinear_arith)
        requires
            (vx - ux) * (wy - uy) - (vy - uy) * (wx - ux) == 0,
            a == ux - vx,
            b == ux - wx,
            al == vy - uy,
            be == wy - uy,
    ;
    lemma_flat(a, b, al, be, dx, dy);
}

/// The same, with a corner as the origin: the three edge functions add up to
/// the area, so where there is no area they are not all positive, and the
/// edges do not all own their points.
proof fn lemma_flat(a: int, b: int, al: int, be: int, dx: int, dy: int)
    requires
        al * b - a * be == 0,
    ensures
        !({
            &&& (a - b) * (dy - al) - (be - al) * (dx + a) >= 0
            &&& b * dy + be * dx >= 0
            &&& -a * dy - al * dx >= 0
            &&& (a - b) * (dy - al) - (be - al) * (dx + a) > 0 || al > be || (al == be && b < a)
            &&& b * dy + be * dx > 0 || be > 0 || (be == 0 && b > 0)
            &&& -a * dy - al * dx > 0 || al < 0 || (al == 0 && a < 0)
        }),
{
    assert(((a - b) * (dy - al) - (be - al) * (dx + a)) + (b * dy + be * dx) + (-a * dy - al * dx)
        == al * b - a * be) by (nonlinear_arith);
}

/// A point on the inner side of all edges of a triangle lies in the bounding box
/// of the triangle, and not in its last column or its last row.
pub proof fn lemma_inside_box(
    ux: int,
    uy: int,
    vx: int,
    vy: int,
    wx: int,
    wy: int,
    px: int,
    py: int,
)
    requires
        orient2d(ux, uy, vx, vy, wx, wy) >= 0,
        inside_edges(ux, uy, vx, vy, wx, wy, px, py),
    ensures
        min3(ux, vx, wx) <= px < max3(ux, vx, wx),
        min3(uy, vy, wy) <= py < max3(uy, vy, wy),
{
    if orient2d(ux, uy, vx, vy, wx, wy) == 0 {
        lemma_flat_covers_nothing(ux, uy, vx, vy, wx, wy, px, py);
    }
    lemma_orient_cycle(ux, uy, vx, vy, wx, wy);
    lemma_orient_cycle(vx, vy, wx, wy, ux, uy);
    lemma_corner_bounds(ux, uy, vx, vy, wx, wy, px, py);
    lemma_corner_bounds(vx, vy, wx, wy, ux, uy, px, py);
    lemma_corner_bounds(wx, wy, ux, uy, vx, vy, px, py);
}

/// The cells that a triangle covers lie in its bounding box, and not in the last
/// column or the last row of the box.
pub proof fn lemma_covered_in_box(
    ux: int,
    uy: int,
    vx: int,
    vy: int,
    wx: int,
    wy: int,
    px: int,
    py: int,
)
    requires
        triangle_covers(ux, uy, vx, vy, wx, wy, px, py),
    ensures
        min3(ux, vx, wx) <= px < max3(ux, vx, wx),
        min3(uy, vy, wy) <= py < max3(uy, vy, wy),
{
    if orient2d(ux, uy, vx, vy, wx, wy) < 0 {
        lemma_orient_swap(ux, uy, vx, vy, wx, wy);
        lemma_inside_box(ux, uy, wx, wy, vx, vy, px, py);
    } else {
        lemma_inside_box(ux, uy, vx, vy, wx, wy, px, py);
    }
}

/// A triangle covers the same cells in whatever order its corners are given.
pub proof fn lemma_covers_any_order(
    ux: int,
    uy: int,
    vx: int,
    vy: int,
    wx: int,
    wy: int,
    px: int,
    py: int,
)
    ensures
        triangle_covers(vx, vy, wx, wy, ux, uy, px, py) == triangle_covers(
            ux,
            uy,
            vx,
            vy,
            wx,
            wy,
            px,
            py,
        ),
        triangle_covers(ux, uy, wx, wy, vx, vy, px, py) == triangle_covers(
            ux,
            uy,
            vx,
            vy,
            wx,
            wy,
            px,
            py,
        ),
{
    lemma_orient_cycle(ux, uy, vx, vy, wx, wy);
    lemma_orient_swap(ux, uy, vx, vy, wx, wy);
    if orient2d(ux, uy, vx, vy, wx, wy) == 0 {
        lemma_flat_covers_nothing(ux, uy, vx, vy, wx, wy, px, py);
        lemma_flat_covers_nothing(ux, uy, wx, wy, vx, vy, px, py);
    }
}

/// Two triangles that share the edge from `u` to `v` and lie on either side of
/// it are filled one after the other: the second fill writes no cell that the
/// first has painted.
pub proof fn lemma_second_fill_keeps_first(
    g: Grid,
    ux: int,
    uy: int,
    vx: int,
    vy: int,
    cx: int,
    cy: int,
    dx: int,
    dy: int,
    first: Pixel,
    second: Pixel,
    x: int,
    y: int,
)
    requires
        g.in_bounds(x, y),
        orient2d(ux, uy, vx, vy, cx, cy) > 0,
        orient2d(ux, uy, vx, vy, dx, dy) < 0,
        triangle_covers(ux, uy, vx, vy, cx, cy, x, y),
    ensures
        g.paint(fill_triangle_shape(ux, uy, vx, vy, cx, cy), first).paint(
            fill_triangle_shape(ux, uy, vx, vy, dx, dy),
            second,
        ).at(x, y) == first,
{
    let once = g.paint(fill_triangle_shape(ux, uy, vx, vy, cx, cy), first);
    lemma_paint_at(g, fill_triangle_shape(ux, uy, vx, vy, cx, cy), first, x, y);
    lemma_paint_at(once, fill_triangle_shape(ux, uy, vx, vy, dx, dy), second, x, y);
    lemma_shared_edge_no_overlap(ux, uy, vx, vy, cx, cy, dx, dy, x, y);
}

/// Two triangles that share the edge from `u` to `v` and lie on either side of
/// it are filled one after the other: every cell on the inner side of the four
/// other edges holds the pixel of one of the fills afterwards. Along the shared
/// edge the two fills leave no gap.
pub proof fn lemma_fills_leave_no_gap(
    g: Grid,
    ux: int,
    uy: int,
    vx: int,
    vy: int,
    cx: int,
    cy: int,
    dx: int,
    dy: int,
    first: Pixel,
    second: Pixel,
    x: int,
    y: int,
)
    requires
        g.in_bounds(x, y),
        orient2d(ux, uy, vx, vy, cx, cy) > 0,
        orient2d(ux, uy, vx, vy, dx, dy) < 0,
        edge_holds(vx, vy, cx, cy, x, y),
        edge_holds(cx, cy, ux, uy, x, y),
        edge_holds(dx, dy, vx, vy, x, y),
        edge_holds(ux, uy, dx, dy, x, y),
    ensures
        ({
            let both = g.paint(fill_triangle_shape(ux, uy, vx, vy, cx, cy), first).paint(
                fill_triangle_shape(ux, uy, vx, vy, dx, dy),
                second,
            );
            both.at(x, y) == first || both.at(x, y) == second
        }),
{
    let once = g.paint(fill_triangle_shape(ux, uy, vx, vy, cx, cy), first);
    lemma_paint_at(g, fill_triangle_shape(ux, uy, vx, vy, cx, cy), first, x, y);
    lemma_paint_at(once, fill_triangle_shape(ux, uy, vx, vy, dx, dy), second, x, y);
    lemma_shared_edge_no_gap(ux, uy, vx, vy, cx, cy, dx, dy, x, y);
}

/// A fill leaves every cell outside the bounding box of the triangle as it was,
/// and every cell in the last column and the last row of the box.
pub proof fn lemma_fill_stays_in_box(
    g: Grid,
    ux: int,
    uy: int,
    vx: int,
    vy: int,
    wx: int,
    wy: int,
    p: Pixel,
    x: int,
    y: int,
)
    requires
        g.in_bounds(x, y),
        !(min3(ux, vx, wx) <= x < max3(ux, vx, wx) && min3(uy, vy, wy) <= y < max3(uy, vy, wy)),
    ensures
        g.paint(fill_triangle_shape(ux, uy, vx, vy, wx, wy), p).at(x, y) == g.at(x, y),
{
    lemma_paint_at(g, fill_triangle_shape(ux, uy, vx, vy, wx, wy), p, x, y);
    if triangle_covers(ux, uy, vx, vy, wx, wy, x, y) {
        lemma_covered_in_box(ux, uy, vx, vy, wx, wy, x, y);
    }
}

} // verus!
