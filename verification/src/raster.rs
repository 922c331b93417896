//! Which cells each drawing primitive covers, as predicates over integer
//! coordinates, and how a covered set changes a grid.

use vstd::prelude::*;
use vstd::arithmetic::div_mod::lemma_fundamental_div_mod_converse;
use crate::grid::{lemma_grid_ext, lemma_index_bound, Grid};
use crate::pixel::Pixel;

verus! {

/// A set of cells, given by its membership test on `(x, y)`.
pub type Shape = spec_fn(int, int) -> bool;

/// `after` is `before` with `p` in every cell of `shape` and every other cell
/// untouched, said cell by cell.
pub open spec fn painted(before: Grid, after: Grid, shape: Shape, p: Pixel) -> bool {
    &&& after.wf()
    &&& after.width == before.width
    &&& after.height == before.height
    &&& forall|x: int, y: int|
        before.in_bounds(x, y) ==> #[trigger] after.at(x, y) == if shape(x, y) {
            p
        } else {
            before.at(x, y)
        }
}

/// A grid painted cell by cell is the painted grid.
pub proof fn lemma_painted(before: Grid, after: Grid, shape: Shape, p: Pixel)
    requires
        painted(before, after, shape, p),
    ensures
        after == before.paint(shape, p),
{
    let n = before.paint(shape, p);
    let w = before.width as int;
    assert forall|x: int, y: int| after.in_bounds(x, y) implies #[trigger] after.at(x, y) == n.at(
        x,
        y,
    ) by {
        lemma_index_bound(w, before.height as int, x, y);
        lemma_fundamental_div_mod_converse(y * w + x, w, y, x);
    }
    lemma_grid_ext(after, n);
}

/// What a painted grid holds at each coordinate.
pub proof fn lemma_paint_at(g: Grid, shape: Shape, p: Pixel, x: int, y: int)
    requires
        g.in_bounds(x, y),
    ensures
        g.paint(shape, p).wf(),
        g.paint(shape, p).at(x, y) == if shape(x, y) {
            p
        } else {
            g.at(x, y)
        },
{
    let w = g.width as int;
    lemma_index_bound(w, g.height as int, x, y);
    lemma_fundamental_div_mod_converse(y * w + x, w, y, x);
}

/// The absolute value.
pub open spec fn abs(v: int) -> int {
    if v < 0 {
        -v
    } else {
        v
    }
}

/// The cells of row `row` between the columns `start_x` and `end_x`, both
/// included, in either order.
pub open spec fn on_h_line(start_x: int, row: int, end_x: int, x: int, y: int) -> bool {
    y == row && (start_x <= x <= end_x || end_x <= x <= start_x)
}

/// The cells of column `col` between the rows `start_y` and `end_y`, both
/// included, in either order.
pub open spec fn on_v_line(col: int, start_y: int, end_y: int, x: int, y: int) -> bool {
    x == col && (start_y <= y <= end_y || end_y <= y <= start_y)
}

/// Twice the signed area of the triangle `u`, `v`, `p`: zero where `p` lies on
/// the line through `u` and `v`, and of opposite sign on its two sides.
pub open spec fn orient2d(ux: int, uy: int, vx: int, vy: int, px: int, py: int) -> int {
    (vx - ux) * (py - uy) - (vy - uy) * (px - ux)
}

/// The cells of a line that is walked along its longer axis. `a` counts along
/// that axis and `b` across it; the walk goes from `(a0, b0)` to `(a1, b1)` with
/// `a0 < a1`. In each position `a` the line holds the one cell whose centre is
/// at most half a cell from the ideal line; a tie goes to the side the walk
/// started from.
pub open spec fn on_walk(a0: int, b0: int, a1: int, b1: int, a: int, b: int) -> bool {
    let e = 2 * orient2d(a0, b0, a1, b1, a, b);
    let da = a1 - a0;
    &&& a0 <= a <= a1
    &&& if b1 >= b0 {
        -da <= e < da
    } else {
        -da < e <= da
    }
}

/// The cells of the line from `(x0, y0)` to `(x1, y1)`. A line along an axis is a
/// run of cells. Any other line is walked along the axis on which it is longer,
/// always from its end with the smaller coordinate on that axis.
pub open spec fn on_line(x0: int, y0: int, x1: int, y1: int, x: int, y: int) -> bool {
    if y0 == y1 {
        on_h_line(x0, y0, x1, x, y)
    } else if x0 == x1 {
        on_v_line(x0, y0, y1, x, y)
    } else if abs(y1 - y0) < abs(x1 - x0) {
        if x0 <= x1 {
            on_walk(x0, y0, x1, y1, x, y)
        } else {
            on_walk(x1, y1, x0, y0, x, y)
        }
    } else {
        if y0 <= y1 {
            on_walk(y0, x0, y1, x1, y, x)
        } else {
            on_walk(y1, x1, y0, x0, y, x)
        }
    }
}

/// The four edges of the rectangle with the corners `(x0, y0)` and `(x1, y1)`.
pub open spec fn on_rect(x0: int, y0: int, x1: int, y1: int, x: int, y: int) -> bool {
    ||| on_h_line(x0, y0, x1, x, y)
    ||| on_v_line(x1, y0, y1, x, y)
    ||| on_h_line(x1, y1, x0, x, y)
    ||| on_v_line(x0, y1, y0, x, y)
}

/// Every cell of the rectangle with the corners `(x0, y0)` and `(x1, y1)`.
pub open spec fn in_rect(x0: int, y0: int, x1: int, y1: int, x: int, y: int) -> bool {
    &&& x0 <= x <= x1 || x1 <= x <= x0
    &&& y0 <= y <= y1 || y1 <= y <= y0
}

/// The three sides of the triangle with the given corners.
pub open spec fn on_triangle(
    x1: int,
    y1: int,
    x2: int,
    y2: int,
    x3: int,
    y3: int,
    x: int,
    y: int,
) -> bool {
    ||| on_line(x1, y1, x2, y2, x, y)
    ||| on_line(x2, y2, x3, y3, x, y)
    ||| on_line(x3, y3, x1, y1, x, y)
}

/// The smallest of three.
pub open spec fn min3(a: int, b: int, c: int) -> int {
    if a <= b && a <= c {
        a
    } else if b <= c {
        b
    } else {
        c
    }
}

/// The largest of three.
pub open spec fn max3(a: int, b: int, c: int) -> int {
    if a >= b && a >= c {
        a
    } else if b >= c {
        b
    } else {
        c
    }
}

/// Whether the edge from `u` to `v` owns the points on it: it does where it runs
/// towards smaller `y`, which makes it a left edge of its triangle, and where it
/// is level and runs towards larger `x`, which makes it a top edge. Of an edge
/// and the same edge walked the other way exactly one owns its points.
pub open spec fn owns_edge(ux: int, uy: int, vx: int, vy: int) -> bool {
    uy > vy || (uy == vy && ux < vx)
}

/// Whether the edge from `u` to `v` of a triangle has `p` on its inner side. The
/// inner side is where `orient2d` is positive. A point on the edge itself
/// belongs to it only where the edge owns its points, so that of two triangles
/// that share an edge exactly one owns the points on it.
pub open spec fn edge_holds(ux: int, uy: int, vx: int, vy: int, px: int, py: int) -> bool {
    if owns_edge(ux, uy, vx, vy) {
        orient2d(ux, uy, vx, vy, px, py) >= 0
    } else {
        orient2d(ux, uy, vx, vy, px, py) > 0
    }
}

/// Whether `p` is on the inner side of all three edges of the triangle `u`, `v`,
/// `w`, whose corners are given in the order in which `orient2d(u, v, w)` is not
/// negative.
pub open spec fn inside_edges(
    ux: int,
    uy: int,
    vx: int,
    vy: int,
    wx: int,
    wy: int,
    px: int,
    py: int,
) -> bool {
    &&& edge_holds(vx, vy, wx, wy, px, py)
    &&& edge_holds(wx, wy, ux, uy, px, py)
    &&& edge_holds(ux, uy, vx, vy, px, py)
}

/// Whether the triangle with the given corners, in any order, covers `p`.
pub open spec fn triangle_covers(
    ux: int,
    uy: int,
    vx: int,
    vy: int,
    wx: int,
    wy: int,
    px: int,
    py: int,
) -> bool {
    if orient2d(ux, uy, vx, vy, wx, wy) < 0 {
        inside_edges(ux, uy, wx, wy, vx, vy, px, py)
    } else {
        inside_edges(ux, uy, vx, vy, wx, wy, px, py)
    }
}

/// The cells that filling a triangle paints: the cells it covers.
pub open spec fn fill_triangle_shape(
    x1: int,
    y1: int,
    x2: int,
    y2: int,
    x3: int,
    y3: int,
) -> Shape {
    |x: int, y: int| triangle_covers(x1, y1, x2, y2, x3, y3, x, y)
}

/// The shape of [`on_h_line`].
pub open spec fn h_line_shape(start_x: int, row: int, end_x: int) -> Shape {
    |x: int, y: int| on_h_line(start_x, row, end_x, x, y)
}

/// The shape of [`on_v_line`].
pub open spec fn v_line_shape(col: int, start_y: int, end_y: int) -> Shape {
    |x: int, y: int| on_v_line(col, start_y, end_y, x, y)
}

/// The shape of [`on_line`].
pub open spec fn line_shape(x0: int, y0: int, x1: int, y1: int) -> Shape {
    |x: int, y: int| on_line(x0, y0, x1, y1, x, y)
}

/// The shape of [`on_rect`].
pub open spec fn rect_shape(x0: int, y0: int, x1: int, y1: int) -> Shape {
    |x: int, y: int| on_rect(x0, y0, x1, y1, x, y)
}

/// The shape of [`in_rect`].
pub open spec fn fill_rect_shape(x0: int, y0: int, x1: int, y1: int) -> Shape {
    |x: int, y: int| in_rect(x0, y0, x1, y1, x, y)
}

/// The shape of [`on_triangle`].
pub open spec fn triangle_shape(x1: int, y1: int, x2: int, y2: int, x3: int, y3: int) -> Shape {
    |x: int, y: int| on_triangle(x1, y1, x2, y2, x3, y3, x, y)
}

/// Moving `p` by `n` cells across a walk changes `orient2d` by `n` times the
/// length of the walk.
pub proof fn lemma_orient_across(a0: int, b0: int, a1: int, b1: int, a: int, b: int, n: int)
    ensures
        orient2d(a0, b0, a1, b1, a, b + n) == orient2d(a0, b0, a1, b1, a, b) + (a1 - a0) * n,
{
    assert((a1 - a0) * (b + n - b0) == (a1 - a0) * (b - b0) + (a1 - a0) * n)
        by (nonlinear_arith);
}

/// Moving `p` by one cell along a walk changes `orient2d` by the rise of the
/// walk.
pub proof fn lemma_orient_along(a0: int, b0: int, a1: int, b1: int, a: int, b: int)
    ensures
        orient2d(a0, b0, a1, b1, a + 1, b) == orient2d(a0, b0, a1, b1, a, b) - (b1 - b0),
{
    assert((b1 - b0) * (a + 1 - a0) == (b1 - b0) * (a - a0) + (b1 - b0)) by (nonlinear_arith);
}

/// How large `orient2d` gets on coordinates of 32 bits.
pub proof fn lemma_orient_bound(ux: int, uy: int, vx: int, vy: int, px: int, py: int)
    requires
        -0x8000_0000 <= ux <= 0x7fff_ffff,
        -0x8000_0000 <= uy <= 0x7fff_ffff,
        -0x8000_0000 <= vx <= 0x7fff_ffff,
        -0x8000_0000 <= vy <= 0x7fff_ffff,
        -0x8000_0000 <= px <= 0x7fff_ffff,
        -0x8000_0000 <= py <= 0x7fff_ffff,
    ensures
        -0x1_0000_0000_0000_0000 <= (vx - ux) * (py - uy) <= 0x1_0000_0000_0000_0000,
        -0x1_0000_0000_0000_0000 <= (vy - uy) * (px - ux) <= 0x1_0000_0000_0000_0000,
        -0x2_0000_0000_0000_0000 <= orient2d(ux, uy, vx, vy, px, py) <= 0x2_0000_0000_0000_0000,
{
    lemma_product_bound(vx - ux, py - uy);
    lemma_product_bound(vy - uy, px - ux);
}

/// The product of two differences of 32-bit numbers.
pub proof fn lemma_product_bound(u: int, v: int)
    requires
        -0x1_0000_0000 <= u <= 0x1_0000_0000,
        -0x1_0000_0000 <= v <= 0x1_0000_0000,
    ensures
        -0x1_0000_0000_0000_0000 <= u * v <= 0x1_0000_0000_0000_0000,
{
    assert(-0x1_0000_0000_0000_0000 <= u * v <= 0x1_0000_0000_0000_0000) by (nonlinear_arith)
        requires
            -0x1_0000_0000 <= u <= 0x1_0000_0000,
            -0x1_0000_0000 <= v <= 0x1_0000_0000,
    ;
}

/// A walk holds at most one cell in each position along its axis.
pub proof fn lemma_walk_unique(a0: int, b0: int, a1: int, b1: int, a: int, b: int, c: int)
    requires
        a0 < a1,
        on_walk(a0, b0, a1, b1, a, b),
        on_walk(a0, b0, a1, b1, a, c),
    ensures
        b == c,
{
    lemma_orient_across(a0, b0, a1, b1, a, b, c - b);
    let da = a1 - a0;
    let eb = orient2d(a0, b0, a1, b1, a, b);
    let ec = orient2d(a0, b0, a1, b1, a, c);
    assert(b == c) by (nonlinear_arith)
        requires
            da > 0,
            ec == eb + da * (c - b),
            -2 * da < 2 * ec - 2 * eb < 2 * da,
    ;
}

/// A line holds the same cells from whichever end it is drawn.
pub proof fn lemma_line_symmetric(x0: int, y0: int, x1: int, y1: int, x: int, y: int)
    ensures
        on_line(x0, y0, x1, y1, x, y) == on_line(x1, y1, x0, y0, x, y),
{
}

/// Drawing a line from either end gives the same grid.
pub proof fn lemma_line_either_end(g: Grid, x0: int, y0: int, x1: int, y1: int, p: Pixel)
    ensures
        g.paint(line_shape(x0, y0, x1, y1), p) == g.paint(line_shape(x1, y1, x0, y0), p),
{
    assert forall|x: int, y: int| #[trigger]
        line_shape(x0, y0, x1, y1)(x, y) == line_shape(x1, y1, x0, y0)(x, y) by {
        lemma_line_symmetric(x0, y0, x1, y1, x, y);
    }
    assert(line_shape(x0, y0, x1, y1) =~= line_shape(x1, y1, x0, y0));
}

/// Painting changes no size and leaves every cell outside the shape as it was:
/// whatever of a shape lies outside the grid is dropped, and what lies inside
/// is painted as if nothing had been cut off.
pub proof fn lemma_paint_clips(g: Grid, shape: Shape, p: Pixel, x: int, y: int)
    requires
        g.wf(),
    ensures
        g.paint(shape, p).wf(),
        g.paint(shape, p).width == g.width,
        g.paint(shape, p).height == g.height,
        g.in_bounds(x, y) ==> g.paint(shape, p).at(x, y) == if shape(x, y) {
            p
        } else {
            g.at(x, y)
        },
{
    if g.in_bounds(x, y) {
        lemma_paint_at(g, shape, p, x, y);
    }
}

/// The edge functions of an edge and of the same edge walked the other way are
/// opposite.
pub proof fn lemma_orient_reverse(ux: int, uy: int, vx: int, vy: int, px: int, py: int)
    ensures
        orient2d(vx, vy, ux, uy, px, py) == -orient2d(ux, uy, vx, vy, px, py),
{
    assert((ux - vx) * (py - vy) - (uy - vy) * (px - vx) == -((vx - ux) * (py - uy) - (vy - uy)
        * (px - ux))) by (nonlinear_arith);
}

/// A point is never on the inner side of an edge in both directions, and it is
/// on the inner side in one of them, unless the edge has no length: of the two
/// triangles on either side of an edge exactly one owns each point, the points
/// on the edge included.
pub proof fn lemma_edge_owned_once(ux: int, uy: int, vx: int, vy: int, px: int, py: int)
    ensures
        !(edge_holds(ux, uy, vx, vy, px, py) && edge_holds(vx, vy, ux, uy, px, py)),
        ux != vx || uy != vy ==> edge_holds(ux, uy, vx, vy, px, py) || edge_holds(
            vx,
            vy,
            ux,
            uy,
            px,
            py,
        ),
{
    lemma_orient_reverse(ux, uy, vx, vy, px, py);
}

/// Two triangles that share the edge from `u` to `v` and lie on either side of
/// it cover no point twice.
pub proof fn lemma_shared_edge_no_overlap(
    ux: int,
    uy: int,
    vx: int,
    vy: int,
    cx: int,
    cy: int,
    dx: int,
    dy: int,
    px: int,
    py: int,
)
    requires
        orient2d(ux, uy, vx, vy, cx, cy) > 0,
        orient2d(ux, uy, vx, vy, dx, dy) < 0,
    ensures
        !(triangle_covers(ux, uy, vx, vy, cx, cy, px, py) && triangle_covers(
            ux,
            uy,
            vx,
            vy,
            dx,
            dy,
            px,
            py,
        )),
{
    lemma_edge_owned_once(ux, uy, vx, vy, px, py);
}

/// Of two triangles that share the edge from `u` to `v` and lie on either side
/// of it, one covers each point that is on the inner side of the other edges of
/// both: along the shared edge there is no gap.
pub proof fn lemma_shared_edge_no_gap(
    ux: int,
    uy: int,
    vx: int,
    vy: int,
    cx: int,
    cy: int,
    dx: int,
    dy: int,
    px: int,
    py: int,
)
    requires
        orient2d(ux, uy, vx, vy, cx, cy) > 0,
        orient2d(ux, uy, vx, vy, dx, dy) < 0,
        edge_holds(vx, vy, cx, cy, px, py),
        edge_holds(cx, cy, ux, uy, px, py),
        edge_holds(dx, dy, vx, vy, px, py),
        edge_holds(ux, uy, dx, dy, px, py),
    ensures
        triangle_covers(ux, uy, vx, vy, cx, cy, px, py) || triangle_covers(
            ux,
            uy,
            vx,
            vy,
            dx,
            dy,
            px,
            py,
        ),
{
    assert(ux != vx || uy != vy) by (nonlinear_arith)
        requires
            (vx - ux) * (cy - uy) - (vy - uy) * (cx - ux) > 0,
    ;
    lemma_edge_owned_once(ux, uy, vx, vy, px, py);
}

} // verus!
