//! The mathematical model of a screen: a rectangle of pixels in row-major order.

use vstd::prelude::*;
use vstd::arithmetic::div_mod::{lemma_fundamental_div_mod, lemma_fundamental_div_mod_converse};
use vstd::arithmetic::div_mod::{lemma_div_pos_is_pos, lemma_mod_pos_bound};
use crate::pixel::{blank, Pixel};

verus! {

/// A rectangle of `width` by `height` pixels. The cell at column `x` of row `y`
/// is `cells[y * width + x]`.
pub struct Grid {
    pub width: nat,
    pub height: nat,
    pub cells: Seq<Pixel>,
}

impl Grid {
    /// There is exactly one cell for each coordinate.
    pub open spec fn wf(self) -> bool {
        self.cells.len() == self.width * self.height
    }

    /// Whether `(x, y)` names a cell.
    pub open spec fn in_bounds(self, x: int, y: int) -> bool {
        0 <= x < self.width && 0 <= y < self.height
    }

    /// The pixel at column `x` of row `y`.
    pub open spec fn at(self, x: int, y: int) -> Pixel {
        self.cells[y * self.width + x]
    }

    /// The grid whose cell at `(x, y)` is `f(x, y)`.
    pub open spec fn from_fn(width: nat, height: nat, f: spec_fn(int, int) -> Pixel) -> Grid {
        Grid {
            width,
            height,
            cells: Seq::new(width * height, |i: int| f(i % (width as int), i / (width as int))),
        }
    }

    /// The grid that holds `p` in every cell.
    pub open spec fn filled(width: nat, height: nat, p: Pixel) -> Grid {
        Grid::from_fn(width, height, |x: int, y: int| p)
    }

    /// This grid with `p` written at `(x, y)`; unchanged where `(x, y)` names no
    /// cell.
    pub open spec fn put(self, x: int, y: int, p: Pixel) -> Grid {
        if self.in_bounds(x, y) {
            Grid { cells: self.cells.update(y * self.width + x, p), ..self }
        } else {
            self
        }
    }

    /// This grid with `p` written to every cell of `shape`.
    pub open spec fn paint(self, shape: spec_fn(int, int) -> bool, p: Pixel) -> Grid {
        Grid::from_fn(
            self.width,
            self.height,
            |x: int, y: int|
                if shape(x, y) {
                    p
                } else {
                    self.at(x, y)
                },
        )
    }

    /// What each cell holds after the content has moved by `dx` columns to the
    /// left and `dy` rows up: the pixel that stood `dx` columns to its right and
    /// `dy` rows below it, or `bg` where there was no such cell.
    pub open spec fn shift_source(self, dx: int, dy: int, bg: Pixel) -> spec_fn(int, int) -> Pixel {
        |x: int, y: int|
            if self.in_bounds(x + dx, y + dy) {
                self.at(x + dx, y + dy)
            } else {
                bg
            }
    }

    /// This grid with its content moved by `dx` columns to the left and `dy` rows
    /// up (to the right and down where they are negative). Cells that nothing
    /// moves into hold `bg`.
    pub open spec fn shifted(self, dx: int, dy: int, bg: Pixel) -> Grid {
        Grid::from_fn(self.width, self.height, self.shift_source(dx, dy, bg))
    }

    /// What each cell of a resized grid holds: what stood there before, or a
    /// blank where there was no such cell.
    pub open spec fn resize_source(self) -> spec_fn(int, int) -> Pixel {
        |x: int, y: int|
            if self.in_bounds(x, y) {
                self.at(x, y)
            } else {
                blank()
            }
    }

    /// This grid cut or extended to `width` by `height`, keeping its top left
    /// corner.
    pub open spec fn resized(self, width: nat, height: nat) -> Grid {
        Grid::from_fn(width, height, self.resize_source())
    }

    /// What each cell of an extract holds. The extract starts at `(x0, y0)` and
    /// runs towards `(x1, y1)`: to the right and down where that is the larger
    /// coordinate, to the left and up where it is the smaller, which mirrors the
    /// content. Where it leaves this grid it holds `default`.
    pub open spec fn extract_source(self, x0: int, y0: int, x1: int, y1: int, default: Pixel)
        -> spec_fn(int, int) -> Pixel {
        |tx: int, ty: int|
            {
                let sx = if x0 <= x1 {
                    x0 + tx
                } else {
                    x0 - tx
                };
                let sy = if y0 <= y1 {
                    y0 + ty
                } else {
                    y0 - ty
                };
                if self.in_bounds(sx, sy) {
                    self.at(sx, sy)
                } else {
                    default
                }
            }
    }

    /// The rectangle between `(x0, y0)` and `(x1, y1)`, both included, as a grid
    /// of its own.
    pub open spec fn extracted(self, x0: int, y0: int, x1: int, y1: int, default: Pixel) -> Grid {
        Grid::from_fn(
            (span(x0, x1) + 1) as nat,
            (span(y0, y1) + 1) as nat,
            self.extract_source(x0, y0, x1, y1, default),
        )
    }

    /// What each cell holds after `source` was laid over this grid with its top
    /// left corner at `(x, y)`. With a `clear` character, the cells of `source`
    /// that hold it let this grid show through.
    pub open spec fn overlay_source(self, source: Grid, x: int, y: int, clear: Option<char>)
        -> spec_fn(int, int) -> Pixel {
        |i: int, j: int|
            if source.in_bounds(i - x, j - y) && clear != Some(source.at(i - x, j - y).chr) {
                source.at(i - x, j - y)
            } else {
                self.at(i, j)
            }
    }

    /// This grid with `source` laid over it.
    pub open spec fn overlaid(self, source: Grid, x: int, y: int, clear: Option<char>) -> Grid {
        Grid::from_fn(self.width, self.height, self.overlay_source(source, x, y, clear))
    }

    /// Whether every cell holds the character `c`.
    pub open spec fn all_chr(self, c: char) -> bool {
        forall|i: int| 0 <= i < self.cells.len() ==> (#[trigger] self.cells[i]).chr == c
    }
}

/// The distance between two coordinates.
pub open spec fn span(a: int, b: int) -> int {
    if a <= b {
        b - a
    } else {
        a - b
    }
}

/// A coordinate inside a `w` by `h` rectangle has its index inside `w * h`.
pub proof fn lemma_index_bound(w: int, h: int, x: int, y: int)
    requires
        0 <= x < w,
        0 <= y < h,
    ensures
        0 <= y * w,
        0 <= y * w + x < w * h,
{
    assert(0 <= y * w && y * w + w <= h * w && h * w == w * h) by (nonlinear_arith)
        requires
            0 <= y < h,
            0 < w,
    ;
}

/// Two coordinates of one rectangle with the same index are the same.
pub proof fn lemma_index_injective(w: int, x: int, y: int, i: int, j: int)
    requires
        0 <= x < w,
        0 <= i < w,
        y * w + x == j * w + i,
    ensures
        x == i,
        y == j,
{
    assert(y == j) by (nonlinear_arith)
        requires
            0 <= x < w,
            0 <= i < w,
            y * w + x == j * w + i,
    ;
}

/// Every index below `w * h` belongs to the coordinate `(i % w, i / w)`.
pub proof fn lemma_index_coordinates(w: int, h: int, i: int)
    requires
        0 <= i < w * h,
        0 <= w,
        0 <= h,
    ensures
        0 <= i % w < w,
        0 <= i / w < h,
        (i / w) * w + i % w == i,
{
    assert(w > 0) by (nonlinear_arith)
        requires
            0 <= i < w * h,
            0 <= w,
    ;
    lemma_fundamental_div_mod(i, w);
    lemma_mod_pos_bound(i, w);
    lemma_div_pos_is_pos(i, w);
    let q = i / w;
    let r = i % w;
    assert(w * q == q * w) by (nonlinear_arith);
    assert(q < h) by (nonlinear_arith)
        requires
            q * w + r == i,
            0 <= r,
            i < w * h,
            0 < w,
    ;
}

/// What `from_fn` holds at each coordinate.
pub proof fn lemma_from_fn_at(width: nat, height: nat, f: spec_fn(int, int) -> Pixel, x: int, y: int)
    requires
        0 <= x < width,
        0 <= y < height,
    ensures
        Grid::from_fn(width, height, f).at(x, y) == f(x, y),
{
    let w = width as int;
    lemma_index_bound(w, height as int, x, y);
    lemma_fundamental_div_mod_converse(y * w + x, w, y, x);
}

/// Two well-formed grids of one size that agree at every coordinate are equal.
pub proof fn lemma_grid_ext(a: Grid, b: Grid)
    requires
        a.wf(),
        b.wf(),
        a.width == b.width,
        a.height == b.height,
        forall|x: int, y: int| a.in_bounds(x, y) ==> #[trigger] a.at(x, y) == b.at(x, y),
    ensures
        a == b,
{
    let w = a.width as int;
    let h = a.height as int;
    assert forall|i: int| 0 <= i < a.cells.len() implies a.cells[i] == b.cells[i] by {
        lemma_index_coordinates(w, h, i);
        assert(a.in_bounds(i % w, i / w));
        assert(a.at(i % w, i / w) == b.at(i % w, i / w));
    }
    assert(a.cells =~= b.cells);
}

/// A well-formed grid that holds `f(x, y)` at every coordinate is
/// `from_fn(.., f)`.
pub proof fn lemma_is_from_fn(g: Grid, f: spec_fn(int, int) -> Pixel)
    requires
        g.wf(),
        forall|x: int, y: int| g.in_bounds(x, y) ==> #[trigger] g.at(x, y) == f(x, y),
    ensures
        g == Grid::from_fn(g.width, g.height, f),
{
    let n = Grid::from_fn(g.width, g.height, f);
    assert forall|x: int, y: int| g.in_bounds(x, y) implies #[trigger] g.at(x, y) == n.at(x, y) by {
        lemma_from_fn_at(g.width, g.height, f, x, y);
    }
    lemma_grid_ext(g, n);
}

/// What `put` holds at each coordinate.
pub proof fn lemma_put_at(g: Grid, x: int, y: int, p: Pixel, i: int, j: int)
    requires
        g.wf(),
        g.in_bounds(i, j),
    ensures
        g.put(x, y, p).at(i, j) == if i == x && j == y {
            p
        } else {
            g.at(i, j)
        },
{
    let w = g.width as int;
    lemma_index_bound(w, g.height as int, i, j);
    if g.in_bounds(x, y) {
        lemma_index_bound(w, g.height as int, x, y);
        if y * w + x == j * w + i {
            lemma_index_injective(w, x, y, i, j);
        }
    }
}

/// The extract of a whole grid is the grid.
pub proof fn lemma_extract_whole(g: Grid, default: Pixel)
    requires
        g.wf(),
        g.width > 0,
        g.height > 0,
    ensures
        g.extracted(0, 0, g.width - 1, g.height - 1, default) == g,
{
    lemma_is_from_fn(g, g.extract_source(0, 0, g.width - 1, g.height - 1, default));
}

/// An extract with the two columns exchanged is the mirror image from left to
/// right of the extract, and one with the two rows exchanged its mirror image
/// from top to bottom.
pub proof fn lemma_extract_mirrored(
    g: Grid,
    x0: int,
    y0: int,
    x1: int,
    y1: int,
    default: Pixel,
    tx: int,
    ty: int,
)
    requires
        x0 <= x1,
        y0 <= y1,
        0 <= tx <= x1 - x0,
        0 <= ty <= y1 - y0,
    ensures
        g.extracted(x1, y0, x0, y1, default).width == g.extracted(x0, y0, x1, y1, default).width,
        g.extracted(x1, y0, x0, y1, default).height == g.extracted(
            x0,
            y0,
            x1,
            y1,
            default,
        ).height,
        g.extracted(x1, y0, x0, y1, default).at(tx, ty) == g.extracted(x0, y0, x1, y1, default).at(
            x1 - x0 - tx,
            ty,
        ),
        g.extracted(x0, y1, x1, y0, default).at(tx, ty) == g.extracted(x0, y0, x1, y1, default).at(
            tx,
            y1 - y0 - ty,
        ),
        g.extracted(x1, y1, x0, y0, default).at(tx, ty) == g.extracted(x0, y0, x1, y1, default).at(
            x1 - x0 - tx,
            y1 - y0 - ty,
        ),
{
    let w = (x1 - x0 + 1) as nat;
    let h = (y1 - y0 + 1) as nat;
    lemma_from_fn_at(w, h, g.extract_source(x1, y0, x0, y1, default), tx, ty);
    lemma_from_fn_at(w, h, g.extract_source(x0, y1, x1, y0, default), tx, ty);
    lemma_from_fn_at(w, h, g.extract_source(x1, y1, x0, y0, default), tx, ty);
    lemma_from_fn_at(w, h, g.extract_source(x0, y0, x1, y1, default), x1 - x0 - tx, ty);
    lemma_from_fn_at(w, h, g.extract_source(x0, y0, x1, y1, default), tx, y1 - y0 - ty);
    lemma_from_fn_at(
        w,
        h,
        g.extract_source(x0, y0, x1, y1, default),
        x1 - x0 - tx,
        y1 - y0 - ty,
    );
}

/// A resized grid holds what the grid held where both have a cell, and a blank
/// everywhere else.
pub proof fn lemma_resized_at(g: Grid, width: nat, height: nat, x: int, y: int)
    requires
        0 <= x < width,
        0 <= y < height,
    ensures
        g.resized(width, height).at(x, y) == if x < g.width && y < g.height {
            g.at(x, y)
        } else {
            blank()
        },
{
    lemma_from_fn_at(width, height, g.resize_source(), x, y);
}

/// What a shifted grid holds at each coordinate.
pub proof fn lemma_shifted_at(g: Grid, dx: int, dy: int, bg: Pixel, x: int, y: int)
    requires
        g.in_bounds(x, y),
    ensures
        g.shifted(dx, dy, bg).at(x, y) == if g.in_bounds(x + dx, y + dy) {
            g.at(x + dx, y + dy)
        } else {
            bg
        },
{
    lemma_from_fn_at(g.width, g.height, g.shift_source(dx, dy, bg), x, y);
}

/// Scrolling by some columns and back by as many, with one background, gives
/// back every cell but those of a band as wide as the scroll, at the edge the
/// content was first pushed over: there the background is left.
pub proof fn lemma_scroll_back(g: Grid, dx: int, bg: Pixel, x: int, y: int)
    requires
        g.in_bounds(x, y),
    ensures
        g.shifted(dx, 0, bg).shifted(-dx, 0, bg).at(x, y) == if 0 <= x - dx < g.width {
            g.at(x, y)
        } else {
            bg
        },
{
    let there = g.shifted(dx, 0, bg);
    lemma_shifted_at(there, -dx, 0, bg, x, y);
    if there.in_bounds(x - dx, y) {
        lemma_shifted_at(g, dx, 0, bg, x - dx, y);
    }
}

/// Scrolling by columns and then by rows is scrolling by both at once.
pub proof fn lemma_scroll_both(g: Grid, dx: int, dy: int, bg: Pixel)
    requires
        g.wf(),
    ensures
        g.shifted(dx, 0, bg).shifted(0, dy, bg) == g.shifted(dx, dy, bg),
{
    let first = g.shifted(dx, 0, bg);
    let both = first.shifted(0, dy, bg);
    assert forall|x: int, y: int| both.in_bounds(x, y) implies #[trigger] both.at(x, y)
        == g.shift_source(dx, dy, bg)(x, y) by {
        lemma_shifted_at(first, 0, dy, bg, x, y);
        if first.in_bounds(x, y + dy) {
            lemma_shifted_at(g, dx, 0, bg, x, y + dy);
        }
    }
    lemma_is_from_fn(both, g.shift_source(dx, dy, bg));
}

} // verus!
