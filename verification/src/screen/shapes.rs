//! Straight lines, rectangles and triangle outlines.

use vstd::prelude::*;
use crate::pixel::Pixel;
use crate::raster::{
    abs, fill_rect_shape, h_line_shape, in_rect, lemma_painted, lemma_walk_unique, line_shape,
    on_walk, orient2d, painted, rect_shape, triangle_shape, v_line_shape, Shape,
};
use crate::rect_style::BorderStyle;
use crate::screen::Screen;

verus! {

/// The cells of a walk that is drawn along the columns (`steep` is false) or along
/// the rows (`steep` is true).
pub open spec fn walk_cells(a0: int, b0: int, a1: int, b1: int, steep: bool, x: int, y: int) -> bool {
    if steep {
        on_walk(a0, b0, a1, b1, y, x)
    } else {
        on_walk(a0, b0, a1, b1, x, y)
    }
}

/// The shape of [`walk_cells`].
pub open spec fn walk_shape(a0: int, b0: int, a1: int, b1: int, steep: bool) -> Shape {
    |x: int, y: int| walk_cells(a0, b0, a1, b1, steep, x, y)
}

/// The limits within which the coordinates of every primitive lie.
pub open spec fn coordinate(v: int) -> bool {
    -0x8000_0000 <= v <= 0x7fff_ffff
}

impl Screen {
    /// Paints the cells of row `row` between the columns `start_x` and `end_x`.
    pub(crate) fn run(&mut self, start_x: i64, row: i64, end_x: i64, p: Pixel)
        ensures
            painted(
                old(self)@,
                final(self)@,
                h_line_shape(start_x as int, row as int, end_x as int),
                p,
            ),
            final(self).cached_empty() == old(self).cached_empty(),
    {
        let lo = if start_x > end_x {
            end_x
        } else {
            start_x
        };
        let hi = if start_x > end_x {
            start_x
        } else {
            end_x
        };
        let width = self.get_width() as i64;
        let height = self.get_height() as i64;
        let first = if lo < 0 {
            0
        } else {
            lo
        };
        let last = if hi > width - 1 {
            width - 1
        } else {
            hi
        };
        proof {
            use_type_invariant(&*self);
        }
        if row < 0 || row >= height {
            return ;
        }
        let mut i: i64 = first;
        while i <= last
            invariant
                first <= i,
                0 <= first,
                last < width,
                i <= last + 1 || i == first,
                width == old(self)@.width,
                0 <= row < height,
                height == old(self)@.height,
                self@.wf(),
                self@.width == old(self)@.width,
                self@.height == old(self)@.height,
                self.cached_empty() == old(self).cached_empty(),
                forall|x: int, y: int|
                    old(self)@.in_bounds(x, y) ==> #[trigger] self@.at(x, y) == if y == row && first
                        <= x < i {
                        p
                    } else {
                        old(self)@.at(x, y)
                    },
            decreases last + 1 - i,
        {
            self.put(i, row, p);
            i += 1;
        }
    }

    /// Paints the cells of column `col` between the rows `start_y` and `end_y`.
    pub(crate) fn rise(&mut self, col: i64, start_y: i64, end_y: i64, p: Pixel)
        ensures
            painted(
                old(self)@,
                final(self)@,
                v_line_shape(col as int, start_y as int, end_y as int),
                p,
            ),
            final(self).cached_empty() == old(self).cached_empty(),
    {
        let lo = if start_y > end_y {
            end_y
        } else {
            start_y
        };
        let hi = if start_y > end_y {
            start_y
        } else {
            end_y
        };
        let width = self.get_width() as i64;
        let height = self.get_height() as i64;
        let first = if lo < 0 {
            0
        } else {
            lo
        };
        let last = if hi > height - 1 {
            height - 1
        } else {
            hi
        };
        proof {
            use_type_invariant(&*self);
        }
        if col < 0 || col >= width {
            return ;
        }
        let mut j: i64 = first;
        while j <= last
            invariant
                first <= j,
                0 <= first,
                last < height,
                j <= last + 1 || j == first,
                height == old(self)@.height,
                0 <= col < width,
                width == old(self)@.width,
                self@.wf(),
                self@.width == old(self)@.width,
                self@.height == old(self)@.height,
                self.cached_empty() == old(self).cached_empty(),
                forall|x: int, y: int|
                    old(self)@.in_bounds(x, y) ==> #[trigger] self@.at(x, y) == if x == col && first
                        <= y < j {
                        p
                    } else {
                        old(self)@.at(x, y)
                    },
            decreases last + 1 - j,
        {
            self.put(col, j, p);
            j += 1;
        }
    }

    /// Paints the walk from `(a0, b0)` to `(a1, b1)`, where `a` counts along the
    /// columns (`steep` is false) or along the rows (`steep` is true).
    fn walk(&mut self, a0: i64, b0: i64, a1: i64, b1: i64, steep: bool, p: Pixel)
        requires
            coordinate(a0 as int),
            coordinate(a1 as int),
            coordinate(b0 as int),
            coordinate(b1 as int),
            a0 < a1,
            abs(b1 - b0) <= a1 - a0,
        ensures
            painted(
                old(self)@,
                final(self)@,
                walk_shape(a0 as int, b0 as int, a1 as int, b1 as int, steep),
                p,
            ),
            final(self).cached_empty() == old(self).cached_empty(),
    {
        let da: i64 = a1 - a0;
        let up = b1 >= b0;
        let db: i64 = if up {
            b1 - b0
        } else {
            b0 - b1
        };
        let mut d: i64 = 2 * db - da;
        let mut b: i64 = b0;
        let mut a: i64 = a0;
        let ghost mut n: int = 0;
        let ghost mut g: int = 0;
        proof {
            use_type_invariant(&*self);
            assert(da * 0 - db * 0 == 0) by (nonlinear_arith);
        }
        while a <= a1
            invariant
                coordinate(a0 as int),
                coordinate(a1 as int),
                coordinate(b0 as int),
                coordinate(b1 as int),
                a0 < a1,
                da == a1 - a0,
                up == (b1 >= b0),
                db == abs(b1 - b0),
                db <= da,
                a0 <= a <= a1 + 1,
                0 <= n <= a - a0,
                b == if up {
                    b0 + n
                } else {
                    b0 - n
                },
                g == da * n - db * (a - a0),
                d == 2 * db - da - 2 * g,
                2 * db - 2 * da < d <= 2 * db,
                self@.wf(),
                self@.width == old(self)@.width,
                self@.height == old(self)@.height,
                self.cached_empty() == old(self).cached_empty(),
                forall|x: int, y: int|
                    old(self)@.in_bounds(x, y) ==> #[trigger] self@.at(x, y) == if walk_cells(
                        a0 as int,
                        b0 as int,
                        a1 as int,
                        b1 as int,
                        steep,
                        x,
                        y,
                    ) && (if steep {
                        y
                    } else {
                        x
                    }) < a {
                        p
                    } else {
                        old(self)@.at(x, y)
                    },
            decreases a1 + 1 - a,
        {
            proof {
                // The cell about to be painted is the one cell of the walk here.
                let e = orient2d(a0 as int, b0 as int, a1 as int, b1 as int, a as int, b as int);
                if up {
                    assert(e == g) by (nonlinear_arith)
                        requires
                            e == (a1 - a0) * (b - b0) - (b1 - b0) * (a - a0),
                            g == da * n - db * (a - a0),
                            da == a1 - a0,
                            db == b1 - b0,
                            b - b0 == n,
                    ;
                } else {
                    assert(e == -g) by (nonlinear_arith)
                        requires
                            e == (a1 - a0) * (b - b0) - (b1 - b0) * (a - a0),
                            g == da * n - db * (a - a0),
                            da == a1 - a0,
                            db == b0 - b1,
                            b - b0 == -n,
                    ;
                }
                assert(on_walk(a0 as int, b0 as int, a1 as int, b1 as int, a as int, b as int));
                assert forall|c: int|
                    on_walk(a0 as int, b0 as int, a1 as int, b1 as int, a as int, c) implies c
                    == b by {
                    lemma_walk_unique(
                        a0 as int,
                        b0 as int,
                        a1 as int,
                        b1 as int,
                        a as int,
                        b as int,
                        c,
                    );
                }
            }
            if steep {
                self.put(b, a, p);
            } else {
                self.put(a, b, p);
            }
            let ghost g0 = g;
            let ghost n0 = n;
            if d > 0 {
                if up {
                    b += 1;
                } else {
                    b -= 1;
                }
                d -= 2 * da;
                proof {
                    n = n + 1;
                    g = g + da;
                }
            }
            d += 2 * db;
            proof {
                g = g - db;
                assert(g == da * n - db * (a + 1 - a0)) by (nonlinear_arith)
                    requires
                        g0 == da * n0 - db * (a - a0),
                        (n == n0 && g == g0 - db) || (n == n0 + 1 && g == g0 + da - db),
                ;
            }
            a += 1;
        }
    }

    /// Paints the cells of row `start_y` between the columns `start_x` and
    /// `end_x`, both included, in either order.
    pub fn h_line(&mut self, start_x: i32, start_y: i32, end_x: i32, character: Pixel)
        ensures
            final(self)@ == old(self)@.paint(
                h_line_shape(start_x as int, start_y as int, end_x as int),
                character,
            ),
            final(self).cached_empty() == old(self).cached_empty(),
    {
        self.run(start_x as i64, start_y as i64, end_x as i64, character);
        proof {
            lemma_painted(
                old(self)@,
                self@,
                h_line_shape(start_x as int, start_y as int, end_x as int),
                character,
            );
        }
    }

    /// Paints the cells of column `start_x` between the rows `start_y` and
    /// `end_y`, both included, in either order.
    pub fn v_line(&mut self, start_x: i32, start_y: i32, end_y: i32, character: Pixel)
        ensures
            final(self)@ == old(self)@.paint(
                v_line_shape(start_x as int, start_y as int, end_y as int),
                character,
            ),
            final(self).cached_empty() == old(self).cached_empty(),
    {
        self.rise(start_x as i64, start_y as i64, end_y as i64, character);
        proof {
            lemma_painted(
                old(self)@,
                self@,
                v_line_shape(start_x as int, start_y as int, end_y as int),
                character,
            );
        }
    }

    /// Paints the line between two points, cell by cell.
    pub(crate) fn stroke(&mut self, x0: i64, y0: i64, x1: i64, y1: i64, p: Pixel)
        requires
            coordinate(x0 as int),
            coordinate(y0 as int),
            coordinate(x1 as int),
            coordinate(y1 as int),
        ensures
            painted(
                old(self)@,
                final(self)@,
                line_shape(x0 as int, y0 as int, x1 as int, y1 as int),
                p,
            ),
            final(self).cached_empty() == old(self).cached_empty(),
    {
        if y0 == y1 {
            self.run(x0, y0, x1, p);
        } else if x0 == x1 {
            self.rise(x0, y0, y1, p);
        } else {
            let dx = if x1 > x0 {
                x1 - x0
            } else {
                x0 - x1
            };
            let dy = if y1 > y0 {
                y1 - y0
            } else {
                y0 - y1
            };
            if dy < dx {
                if x0 > x1 {
                    self.walk(x1, y1, x0, y0, false, p);
                } else {
                    self.walk(x0, y0, x1, y1, false, p);
                }
            } else if y0 > y1 {
                self.walk(y1, x1, y0, x0, true, p);
            } else {
                self.walk(y0, x0, y1, x1, true, p);
            }
        }
    }

    /// Draws the line from `(start_x, start_y)` to `(end_x, end_y)`. Either end
    /// may lie outside the screen; the cells inside it are painted.
    pub fn line(&mut self, start_x: i32, start_y: i32, end_x: i32, end_y: i32, character: Pixel)
        ensures
            final(self)@ == old(self)@.paint(
                line_shape(start_x as int, start_y as int, end_x as int, end_y as int),
                character,
            ),
            final(self).cached_empty() == old(self).cached_empty(),
    {
        self.stroke(start_x as i64, start_y as i64, end_x as i64, end_y as i64, character);
        proof {
            lemma_painted(
                old(self)@,
                self@,
                line_shape(start_x as int, start_y as int, end_x as int, end_y as int),
                character,
            );
        }
    }

    /// Draws the four edges of the rectangle with the corners `(start_x,
    /// start_y)` and `(end_x, end_y)`.
    pub fn rect(&mut self, start_x: i32, start_y: i32, end_x: i32, end_y: i32, character: Pixel)
        ensures
            final(self)@ == old(self)@.paint(
                rect_shape(start_x as int, start_y as int, end_x as int, end_y as int),
                character,
            ),
            final(self).cached_empty() == old(self).cached_empty(),
    {
        self.run(start_x as i64, start_y as i64, end_x as i64, character);
        self.rise(end_x as i64, start_y as i64, end_y as i64, character);
        self.run(end_x as i64, end_y as i64, start_x as i64, character);
        self.rise(start_x as i64, end_y as i64, start_y as i64, character);
        proof {
            lemma_painted(
                old(self)@,
                self@,
                rect_shape(start_x as int, start_y as int, end_x as int, end_y as int),
                character,
            );
        }
    }

    /// Draws the rectangle with the corners `(start_x, start_y)` and `(end_x,
    /// end_y)` in a border style: the edges first, then the four corners over
    /// them.
    pub fn rect_border(
        &mut self,
        start_x: i32,
        start_y: i32,
        end_x: i32,
        end_y: i32,
        rect_style: BorderStyle,
    )
        ensures
            final(self)@ == old(self)@.paint(
                h_line_shape(start_x as int, start_y as int, end_x as int),
                rect_style.top_bottom,
            ).paint(
                v_line_shape(end_x as int, start_y as int, end_y as int),
                rect_style.left_right,
            ).paint(
                h_line_shape(end_x as int, end_y as int, start_x as int),
                rect_style.top_bottom,
            ).paint(
                v_line_shape(start_x as int, end_y as int, start_y as int),
                rect_style.left_right,
            ).put(start_x as int, start_y as int, rect_style.corner_top_left).put(
                end_x as int,
                start_y as int,
                rect_style.corner_top_right,
            ).put(start_x as int, end_y as int, rect_style.corner_bottom_left).put(
                end_x as int,
                end_y as int,
                rect_style.corner_bottom_right,
            ),
            final(self).cached_empty() == old(self).cached_empty(),
    {
        self.h_line(start_x, start_y, end_x, rect_style.top_bottom);
        self.v_line(end_x, start_y, end_y, rect_style.left_right);
        self.h_line(end_x, end_y, start_x, rect_style.top_bottom);
        self.v_line(start_x, end_y, start_y, rect_style.left_right);
        self.set_pxl(start_x, start_y, rect_style.corner_top_left);
        self.set_pxl(end_x, start_y, rect_style.corner_top_right);
        self.set_pxl(start_x, end_y, rect_style.corner_bottom_left);
        self.set_pxl(end_x, end_y, rect_style.corner_bottom_right);
    }

    /// Paints every cell of the rectangle with the corners `(start_x, start_y)`
    /// and `(end_x, end_y)`.
    pub fn fill_rect(
        &mut self,
        start_x: i32,
        start_y: i32,
        end_x: i32,
        end_y: i32,
        character: Pixel,
    )
        ensures
            final(self)@ == old(self)@.paint(
                fill_rect_shape(start_x as int, start_y as int, end_x as int, end_y as int),
                character,
            ),
            final(self).cached_empty() == old(self).cached_empty(),
    {
        let lo: i64 = if start_y < end_y {
            start_y as i64
        } else {
            end_y as i64
        };
        let hi: i64 = if start_y < end_y {
            end_y as i64
        } else {
            start_y as i64
        };
        let height = self.get_height() as i64;
        let first = if lo < 0 {
            0
        } else {
            lo
        };
        let last = if hi > height - 1 {
            height - 1
        } else {
            hi
        };
        proof {
            use_type_invariant(&*self);
        }
        let mut j: i64 = first;
        while j <= last
            invariant
                0 <= first <= j,
                j <= last + 1 || j == first,
                last < height,
                height == old(self)@.height,
                lo as int == if start_y < end_y {
                    start_y as int
                } else {
                    end_y as int
                },
                hi as int == if start_y < end_y {
                    end_y as int
                } else {
                    start_y as int
                },
                first as int == if lo < 0 {
                    0
                } else {
                    lo as int
                },
                last as int == if hi > height - 1 {
                    height - 1
                } else {
                    hi as int
                },
                self@.wf(),
                self@.width == old(self)@.width,
                self@.height == old(self)@.height,
                self.cached_empty() == old(self).cached_empty(),
                forall|x: int, y: int|
                    old(self)@.in_bounds(x, y) ==> #[trigger] self@.at(x, y) == if in_rect(
                        start_x as int,
                        start_y as int,
                        end_x as int,
                        end_y as int,
                        x,
                        y,
                    ) && y < j {
                        character
                    } else {
                        old(self)@.at(x, y)
                    },
            decreases last + 1 - j,
        {
            self.run(start_x as i64, j, end_x as i64, character);
            j += 1;
        }
        proof {
            lemma_painted(
                old(self)@,
                self@,
                fill_rect_shape(start_x as int, start_y as int, end_x as int, end_y as int),
                character,
            );
        }
    }

    /// Draws the three sides of the triangle with the given corners.
    pub fn triangle(
        &mut self,
        x1: i32,
        y1: i32,
        x2: i32,
        y2: i32,
        x3: i32,
        y3: i32,
        character: Pixel,
    )
        ensures
            final(self)@ == old(self)@.paint(
                triangle_shape(
                    x1 as int,
                    y1 as int,
                    x2 as int,
                    y2 as int,
                    x3 as int,
                    y3 as int,
                ),
                character,
            ),
            final(self).cached_empty() == old(self).cached_empty(),
    {
        self.outline(x1 as i64, y1 as i64, x2 as i64, y2 as i64, x3 as i64, y3 as i64, character);
        proof {
            lemma_painted(
                old(self)@,
                self@,
                triangle_shape(
                    x1 as int,
                    y1 as int,
                    x2 as int,
                    y2 as int,
                    x3 as int,
                    y3 as int,
                ),
                character,
            );
        }
    }

    /// Paints the three sides of a triangle, cell by cell.
    pub(crate) fn outline(
        &mut self,
        x1: i64,
        y1: i64,
        x2: i64,
        y2: i64,
        x3: i64,
        y3: i64,
        p: Pixel,
    )
        requires
            coordinate(x1 as int),
            coordinate(y1 as int),
            coordinate(x2 as int),
            coordinate(y2 as int),
            coordinate(x3 as int),
            coordinate(y3 as int),
        ensures
            painted(
                old(self)@,
                final(self)@,
                triangle_shape(
                    x1 as int,
                    y1 as int,
                    x2 as int,
                    y2 as int,
                    x3 as int,
                    y3 as int,
                ),
                p,
            ),
            final(self).cached_empty() == old(self).cached_empty(),
    {
        self.stroke(x1, y1, x2, y2, p);
        self.stroke(x2, y2, x3, y3, p);
        self.stroke(x3, y3, x1, y1, p);
    }
}

} // verus!
