//! Filled triangles, rasterised with edge functions.

use vstd::prelude::*;
use vstd::math::{max, min};
use crate::pixel::Pixel;
use crate::cover::lemma_covered_in_box;
use crate::raster::{
    fill_triangle_shape, lemma_orient_across, lemma_orient_along,
    lemma_orient_bound, lemma_painted, max3, min3, orient2d, owns_edge, triangle_covers,
};
use crate::screen::shapes::coordinate;
use crate::screen::Screen;

verus! {

/// `orient2d` on coordinates of 32 bits.
fn orient(ux: i64, uy: i64, vx: i64, vy: i64, px: i64, py: i64) -> (r: i128)
    requires
        coordinate(ux as int),
        coordinate(uy as int),
        coordinate(vx as int),
        coordinate(vy as int),
        coordinate(px as int),
        coordinate(py as int),
    ensures
        r == orient2d(ux as int, uy as int, vx as int, vy as int, px as int, py as int),
        -0x2_0000_0000_0000_0000 <= r <= 0x2_0000_0000_0000_0000,
{
    proof {
        lemma_orient_bound(ux as int, uy as int, vx as int, vy as int, px as int, py as int);
    }
    let u: i128 = ((vx - ux) as i128) * ((py - uy) as i128);
    let v: i128 = ((vy - uy) as i128) * ((px - ux) as i128);
    u - v
}

/// What is added to the edge function of the edge from `u` to `v` so that a
/// point belongs to the edge's inner side exactly where the sum is not negative:
/// nothing where the edge owns its points, and one less where it does not.
pub open spec fn edge_bias(ux: int, uy: int, vx: int, vy: int) -> int {
    if owns_edge(ux, uy, vx, vy) {
        0
    } else {
        -1
    }
}

/// What is added to the edge function of the edge from `u` to `v`.
fn bias(ux: i64, uy: i64, vx: i64, vy: i64) -> (r: i128)
    ensures
        r == edge_bias(ux as int, uy as int, vx as int, vy as int),
{
    if uy > vy || (uy == vy && ux < vx) {
        0
    } else {
        -1
    }
}

/// The cells of the bounding box of a triangle that the triangle covers, but for
/// the last column and the last row of the box. These are all the cells that the
/// triangle covers.
pub open spec fn covered_in_box(
    x1: int,
    y1: int,
    x2: int,
    y2: int,
    x3: int,
    y3: int,
    x: int,
    y: int,
) -> bool {
    &&& min3(x1, x2, x3) <= x < max3(x1, x2, x3)
    &&& min3(y1, y2, y3) <= y < max3(y1, y2, y3)
    &&& triangle_covers(x1, y1, x2, y2, x3, y3, x, y)
}

impl Screen {
    /// Fills the triangle with the given corners: paints the cells it covers, and
    /// no others. The corners are brought into one winding first. A cell exactly
    /// on an edge belongs to the triangle only where the edge is a left edge or a
    /// top edge of it, so that of two triangles that share an edge exactly one
    /// paints the cells on it.
    pub fn fill_triangle(
        &mut self,
        x1: i32,
        y1: i32,
        x2: i32,
        y2: i32,
        x3: i32,
        y3: i32,
        character: Pixel,
    )
        ensures
            final(self)@ == old(self)@.paint(
                fill_triangle_shape(
                    x1 as int,
                    y1 as int,
                    x2 as int,
                    y2 as int,
                    x3 as int,
                    y3 as int,
                ),
                character,
            ),
            final(self).cached_empty() == old(self).cached_empty(),
    {
        let ux = x1 as i64;
        let uy = y1 as i64;
        let mut vx = x2 as i64;
        let mut vy = y2 as i64;
        let mut wx = x3 as i64;
        let mut wy = y3 as i64;
        // The rasteriser fills triangles of one winding only.
        if orient(ux, uy, vx, vy, wx, wy) < 0 {
            vx = x3 as i64;
            vy = y3 as i64;
            wx = x2 as i64;
            wy = y2 as i64;
        }
        let width = self.get_width() as i64;
        let height = self.get_height() as i64;
        let min_x = highest(lowest(lowest(ux, vx), wx), 0);
        let max_x = lowest(highest(highest(ux, vx), wx), width);
        let min_y = highest(lowest(lowest(uy, vy), wy), 0);
        let max_y = lowest(highest(highest(uy, vy), wy), height);
        proof {
            use_type_invariant(&*self);
        }
        if min_x >= max_x || min_y >= max_y {
            proof {
                assert forall|i: int, j: int| triangle_covers(
                    x1 as int,
                    y1 as int,
                    x2 as int,
                    y2 as int,
                    x3 as int,
                    y3 as int,
                    i,
                    j,
                ) implies covered_in_box(
                    x1 as int,
                    y1 as int,
                    x2 as int,
                    y2 as int,
                    x3 as int,
                    y3 as int,
                    i,
                    j,
                ) by {
                    lemma_covered_in_box(
                        x1 as int,
                        y1 as int,
                        x2 as int,
                        y2 as int,
                        x3 as int,
                        y3 as int,
                        i,
                        j,
                    );
                }
                lemma_painted(
                    old(self)@,
                    self@,
                    fill_triangle_shape(
                        x1 as int,
                        y1 as int,
                        x2 as int,
                        y2 as int,
                        x3 as int,
                        y3 as int,
                    ),
                    character,
                );
            }
            return ;
        }
        // One step to the right and one step down change each edge function by
        // these amounts.
        let a01: i128 = (uy - vy) as i128;
        let b01: i128 = (vx - ux) as i128;
        let a12: i128 = (vy - wy) as i128;
        let b12: i128 = (wx - vx) as i128;
        let a20: i128 = (wy - uy) as i128;
        let b20: i128 = (ux - wx) as i128;
        let mut w0_row: i128 = orient(vx, vy, wx, wy, min_x, min_y) + bias(vx, vy, wx, wy);
        let mut w1_row: i128 = orient(wx, wy, ux, uy, min_x, min_y) + bias(wx, wy, ux, uy);
        let mut w2_row: i128 = orient(ux, uy, vx, vy, min_x, min_y) + bias(ux, uy, vx, vy);
        let mut y: i64 = min_y;
        while y < max_y
            invariant
                coordinate(ux as int),
                coordinate(uy as int),
                coordinate(vx as int),
                coordinate(vy as int),
                coordinate(wx as int),
                coordinate(wy as int),
                ux == x1,
                uy == y1,
                (vx == x2 && vy == y2 && wx == x3 && wy == y3 && orient2d(
                    x1 as int,
                    y1 as int,
                    x2 as int,
                    y2 as int,
                    x3 as int,
                    y3 as int,
                ) >= 0) || (vx == x3 && vy == y3 && wx == x2 && wy == y2 && orient2d(
                    x1 as int,
                    y1 as int,
                    x2 as int,
                    y2 as int,
                    x3 as int,
                    y3 as int,
                ) < 0),
                width == old(self)@.width,
                height == old(self)@.height,
                min_x == max(min3(x1 as int, x2 as int, x3 as int), 0),
                max_x == min(max3(x1 as int, x2 as int, x3 as int), width as int),
                min_y == max(min3(y1 as int, y2 as int, y3 as int), 0),
                max_y == min(max3(y1 as int, y2 as int, y3 as int), height as int),
                min_x < max_x,
                min_y <= y <= max_y,
                a01 == uy - vy,
                b01 == vx - ux,
                a12 == vy - wy,
                b12 == wx - vx,
                a20 == wy - uy,
                b20 == ux - wx,
                w0_row == orient2d(
                    vx as int,
                    vy as int,
                    wx as int,
                    wy as int,
                    min_x as int,
                    y as int,
                ) + edge_bias(vx as int, vy as int, wx as int, wy as int),
                w1_row == orient2d(
                    wx as int,
                    wy as int,
                    ux as int,
                    uy as int,
                    min_x as int,
                    y as int,
                ) + edge_bias(wx as int, wy as int, ux as int, uy as int),
                w2_row == orient2d(
                    ux as int,
                    uy as int,
                    vx as int,
                    vy as int,
                    min_x as int,
                    y as int,
                ) + edge_bias(ux as int, uy as int, vx as int, vy as int),
                self@.wf(),
                self@.width == old(self)@.width,
                self@.height == old(self)@.height,
                self.cached_empty() == old(self).cached_empty(),
                forall|i: int, j: int|
                    old(self)@.in_bounds(i, j) ==> #[trigger] self@.at(i, j) == if covered_in_box(
                        x1 as int,
                        y1 as int,
                        x2 as int,
                        y2 as int,
                        x3 as int,
                        y3 as int,
                        i,
                        j,
                    ) && j < y {
                        character
                    } else {
                        old(self)@.at(i, j)
                    },
            decreases max_y - y,
        {
            let mut w0 = w0_row;
            let mut w1 = w1_row;
            let mut w2 = w2_row;
            let mut x: i64 = min_x;
            while x < max_x
                invariant
                    coordinate(ux as int),
                    coordinate(uy as int),
                    coordinate(vx as int),
                    coordinate(vy as int),
                    coordinate(wx as int),
                    coordinate(wy as int),
                    ux == x1,
                    uy == y1,
                    (vx == x2 && vy == y2 && wx == x3 && wy == y3 && orient2d(
                        x1 as int,
                        y1 as int,
                        x2 as int,
                        y2 as int,
                        x3 as int,
                        y3 as int,
                    ) >= 0) || (vx == x3 && vy == y3 && wx == x2 && wy == y2 && orient2d(
                        x1 as int,
                        y1 as int,
                        x2 as int,
                        y2 as int,
                        x3 as int,
                        y3 as int,
                    ) < 0),
                    width == old(self)@.width,
                    height == old(self)@.height,
                    min_x == max(min3(x1 as int, x2 as int, x3 as int), 0),
                    max_x == min(max3(x1 as int, x2 as int, x3 as int), width as int),
                    min_y == max(min3(y1 as int, y2 as int, y3 as int), 0),
                    max_y == min(max3(y1 as int, y2 as int, y3 as int), height as int),
                    min_x <= x <= max_x,
                    min_y <= y < max_y,
                    a01 == uy - vy,
                    a12 == vy - wy,
                    a20 == wy - uy,
                    w0 == orient2d(
                        vx as int,
                        vy as int,
                        wx as int,
                        wy as int,
                        x as int,
                        y as int,
                    ) + edge_bias(vx as int, vy as int, wx as int, wy as int),
                    w1 == orient2d(
                        wx as int,
                        wy as int,
                        ux as int,
                        uy as int,
                        x as int,
                        y as int,
                    ) + edge_bias(wx as int, wy as int, ux as int, uy as int),
                    w2 == orient2d(
                        ux as int,
                        uy as int,
                        vx as int,
                        vy as int,
                        x as int,
                        y as int,
                    ) + edge_bias(ux as int, uy as int, vx as int, vy as int),
                    self@.wf(),
                    self@.width == old(self)@.width,
                    self@.height == old(self)@.height,
                    self.cached_empty() == old(self).cached_empty(),
                    forall|i: int, j: int|
                        old(self)@.in_bounds(i, j) ==> #[trigger] self@.at(i, j)
                            == if covered_in_box(
                            x1 as int,
                            y1 as int,
                            x2 as int,
                            y2 as int,
                            x3 as int,
                            y3 as int,
                            i,
                            j,
                        ) && (j < y || (j == y && i < x)) {
                            character
                        } else {
                            old(self)@.at(i, j)
                        },
                decreases max_x - x,
            {
                proof {
                    lemma_orient_bound(
                        vx as int,
                        vy as int,
                        wx as int,
                        wy as int,
                        x as int,
                        y as int,
                    );
                    lemma_orient_bound(
                        wx as int,
                        wy as int,
                        ux as int,
                        uy as int,
                        x as int,
                        y as int,
                    );
                    lemma_orient_bound(
                        ux as int,
                        uy as int,
                        vx as int,
                        vy as int,
                        x as int,
                        y as int,
                    );
                    lemma_orient_along(
                        vx as int,
                        vy as int,
                        wx as int,
                        wy as int,
                        x as int,
                        y as int,
                    );
                    lemma_orient_along(
                        wx as int,
                        wy as int,
                        ux as int,
                        uy as int,
                        x as int,
                        y as int,
                    );
                    lemma_orient_along(
                        ux as int,
                        uy as int,
                        vx as int,
                        vy as int,
                        x as int,
                        y as int,
                    );
                }
                if w0 >= 0 && w1 >= 0 && w2 >= 0 {
                    self.put(x, y, character);
                }
                w0 += a12;
                w1 += a20;
                w2 += a01;
                x += 1;
            }
            proof {
                lemma_orient_bound(
                    vx as int,
                    vy as int,
                    wx as int,
                    wy as int,
                    min_x as int,
                    y as int,
                );
                lemma_orient_bound(
                    wx as int,
                    wy as int,
                    ux as int,
                    uy as int,
                    min_x as int,
                    y as int,
                );
                lemma_orient_bound(
                    ux as int,
                    uy as int,
                    vx as int,
                    vy as int,
                    min_x as int,
                    y as int,
                );
                lemma_orient_across(
                    vx as int,
                    vy as int,
                    wx as int,
                    wy as int,
                    min_x as int,
                    y as int,
                    1,
                );
                lemma_orient_across(
                    wx as int,
                    wy as int,
                    ux as int,
                    uy as int,
                    min_x as int,
                    y as int,
                    1,
                );
                lemma_orient_across(
                    ux as int,
                    uy as int,
                    vx as int,
                    vy as int,
                    min_x as int,
                    y as int,
                    1,
                );
            }
            w0_row += b12;
            w1_row += b20;
            w2_row += b01;
            y += 1;
        }
        proof {
            assert forall|i: int, j: int| triangle_covers(
                x1 as int,
                y1 as int,
                x2 as int,
                y2 as int,
                x3 as int,
                y3 as int,
                i,
                j,
            ) implies covered_in_box(
                x1 as int,
                y1 as int,
                x2 as int,
                y2 as int,
                x3 as int,
                y3 as int,
                i,
                j,
            ) by {
                lemma_covered_in_box(
                    x1 as int,
                    y1 as int,
                    x2 as int,
                    y2 as int,
                    x3 as int,
                    y3 as int,
                    i,
                    j,
                );
            }
            lemma_painted(
                old(self)@,
                self@,
                fill_triangle_shape(
                    x1 as int,
                    y1 as int,
                    x2 as int,
                    y2 as int,
                    x3 as int,
                    y3 as int,
                ),
                character,
            );
        }
    }
}

/// The smaller of two.
fn lowest(a: i64, b: i64) -> (r: i64)
    ensures
        r == min(a as int, b as int),
{
    if a < b {
        a
    } else {
        b
    }
}

/// The larger of two.
fn highest(a: i64, b: i64) -> (r: i64)
    ensures
        r == max(a as int, b as int),
{
    if a > b {
        a
    } else {
        b
    }
}

} // verus!
