//! Whole regions: resizing a screen, extracting a part of it, and laying one
//! screen over another.

use vstd::prelude::*;
use vstd::math::min;
use crate::grid::{lemma_is_from_fn, span};
use crate::pixel::{blank, Pixel};
use crate::screen::shapes::coordinate;
use crate::screen::Screen;

verus! {

impl Screen {
    /// Gives the screen a new size. The content keeps its place from the top left
    /// corner; what no longer fits is lost, and new cells are blank.
    pub fn resize(&mut self, new_width: u32, new_height: u32)
        requires
            new_width * new_height <= usize::MAX,
        ensures
            final(self)@ == old(self)@.resized(new_width as nat, new_height as nat),
            final(self).cached_empty() == old(self).cached_empty(),
    {
        let mut fresh = Screen::new(new_width, new_height);
        let rows = if self.height < new_height {
            self.height
        } else {
            new_height
        } as i64;
        let columns = if self.width < new_width {
            self.width
        } else {
            new_width
        } as i64;
        let ghost blanks = fresh@;
        proof {
            use_type_invariant(&*self);
            assert forall|x: int, y: int| blanks.in_bounds(x, y) implies #[trigger] blanks.at(x, y)
                == blank() by {
                crate::grid::lemma_from_fn_at(
                    new_width as nat,
                    new_height as nat,
                    |x: int, y: int| blank(),
                    x,
                    y,
                );
            }
        }
        let mut j: i64 = 0;
        while j < rows
            invariant
                0 <= j <= rows,
                rows == min(self@.height as int, new_height as int),
                columns == min(self@.width as int, new_width as int),
                fresh@.wf(),
                fresh@.width == new_width,
                fresh@.height == new_height,
                forall|x: int, y: int|
                    fresh@.in_bounds(x, y) ==> #[trigger] fresh@.at(x, y) == if y < j
                        && self@.in_bounds(x, y) {
                        self@.at(x, y)
                    } else {
                        blank()
                    },
            decreases rows - j,
        {
            let mut i: i64 = 0;
            while i < columns
                invariant
                    0 <= i <= columns,
                    0 <= j < rows,
                    rows == min(self@.height as int, new_height as int),
                    columns == min(self@.width as int, new_width as int),
                    fresh@.wf(),
                    fresh@.width == new_width,
                    fresh@.height == new_height,
                    forall|x: int, y: int|
                        fresh@.in_bounds(x, y) ==> #[trigger] fresh@.at(x, y) == if (y < j || (y
                            == j && x < i)) && self@.in_bounds(x, y) {
                            self@.at(x, y)
                        } else {
                            blank()
                        },
                decreases columns - i,
            {
                let p = self.cell(i, j);
                fresh.put(i, j, p);
                i += 1;
            }
            j += 1;
        }
        proof {
            use_type_invariant(&fresh);
            lemma_is_from_fn(fresh@, self@.resize_source());
        }
        *self = Screen {
            width: fresh.width,
            height: fresh.height,
            screen: fresh.screen,
            empty: self.empty,
        };
    }

    /// The rectangle between `(start_x, start_y)` and `(end_x, end_y)`, both
    /// included, as a screen of its own. Where the end is the smaller coordinate
    /// the content is mirrored. Cells of the rectangle outside this screen hold
    /// `default`. The rectangle has at most `usize::MAX` cells and each of its
    /// sides at most `u32::MAX`.
    pub fn extract(&self, start_x: i32, start_y: i32, end_x: i32, end_y: i32, default: Pixel) -> (part:
        Screen)
        requires
            span(start_x as int, end_x as int) < u32::MAX,
            span(start_y as int, end_y as int) < u32::MAX,
            (span(start_x as int, end_x as int) + 1) * (span(start_y as int, end_y as int) + 1)
                <= usize::MAX,
        ensures
            part@ == self@.extracted(
                start_x as int,
                start_y as int,
                end_x as int,
                end_y as int,
                default,
            ),
            !part.cached_empty(),
    {
        let x0 = start_x as i64;
        let y0 = start_y as i64;
        let x1 = end_x as i64;
        let y1 = end_y as i64;
        let columns: i64 = if x0 <= x1 {
            x1 - x0 + 1
        } else {
            x0 - x1 + 1
        };
        let rows: i64 = if y0 <= y1 {
            y1 - y0 + 1
        } else {
            y0 - y1 + 1
        };
        let mut part = Screen::new_fill(columns as u32, rows as u32, default);
        proof {
            assert forall|x: int, y: int| part@.in_bounds(x, y) implies #[trigger] part@.at(x, y)
                == default by {
                crate::grid::lemma_from_fn_at(
                    columns as nat,
                    rows as nat,
                    |x: int, y: int| default,
                    x,
                    y,
                );
            }
        }
        let mut ty: i64 = 0;
        while ty < rows
            invariant
                0 <= ty <= rows,
                coordinate(x0 as int),
                coordinate(y0 as int),
                coordinate(x1 as int),
                coordinate(y1 as int),
                columns == span(x0 as int, x1 as int) + 1,
                rows == span(y0 as int, y1 as int) + 1,
                part@.wf(),
                part@.width == columns,
                part@.height == rows,
                !part.cached_empty(),
                forall|x: int, y: int|
                    part@.in_bounds(x, y) ==> #[trigger] part@.at(x, y) == if y < ty {
                        self@.extract_source(
                            x0 as int,
                            y0 as int,
                            x1 as int,
                            y1 as int,
                            default,
                        )(x, y)
                    } else {
                        default
                    },
            decreases rows - ty,
        {
            let sy = if y0 <= y1 {
                y0 + ty
            } else {
                y0 - ty
            };
            let mut tx: i64 = 0;
            while tx < columns
                invariant
                    0 <= tx <= columns,
                    0 <= ty < rows,
                    coordinate(x0 as int),
                    coordinate(y0 as int),
                    coordinate(x1 as int),
                    coordinate(y1 as int),
                    columns == span(x0 as int, x1 as int) + 1,
                    rows == span(y0 as int, y1 as int) + 1,
                    sy == if y0 <= y1 {
                        y0 + ty
                    } else {
                        y0 - ty
                    },
                    part@.wf(),
                    part@.width == columns,
                    part@.height == rows,
                    !part.cached_empty(),
                    forall|x: int, y: int|
                        part@.in_bounds(x, y) ==> #[trigger] part@.at(x, y) == if y < ty || (y
                            == ty && x < tx) {
                            self@.extract_source(
                                x0 as int,
                                y0 as int,
                                x1 as int,
                                y1 as int,
                                default,
                            )(x, y)
                        } else {
                            default
                        },
                decreases columns - tx,
            {
                let sx = if x0 <= x1 {
                    x0 + tx
                } else {
                    x0 - tx
                };
                match self.peek(sx, sy) {
                    Some(p) => {
                        part.put(tx, ty, p);
                    },
                    None => {},
                }
                tx += 1;
            }
            ty += 1;
        }
        proof {
            lemma_is_from_fn(
                part@,
                self@.extract_source(x0 as int, y0 as int, x1 as int, y1 as int, default),
            );
        }
        part
    }

    /// Lays `source` over this screen, cell by cell, with or without a character
    /// that stands for "nothing here".
    fn overlay(&mut self, x: i32, y: i32, source: &Screen, clear: Option<char>)
        ensures
            final(self)@ == old(self)@.overlaid(source@, x as int, y as int, clear),
            final(self).cached_empty() == old(self).cached_empty(),
    {
        let columns = source.get_width() as i64;
        let rows = source.get_height() as i64;
        let x = x as i64;
        let y = y as i64;
        proof {
            use_type_invariant(&*self);
        }
        let mut j: i64 = 0;
        while j < rows
            invariant
                0 <= j <= rows,
                coordinate(x as int),
                coordinate(y as int),
                columns == source@.width,
                rows == source@.height,
                self@.wf(),
                self@.width == old(self)@.width,
                self@.height == old(self)@.height,
                self.cached_empty() == old(self).cached_empty(),
                forall|a: int, b: int|
                    old(self)@.in_bounds(a, b) ==> #[trigger] self@.at(a, b) == if b - y < j {
                        old(self)@.overlay_source(source@, x as int, y as int, clear)(a, b)
                    } else {
                        old(self)@.at(a, b)
                    },
            decreases rows - j,
        {
            let mut i: i64 = 0;
            while i < columns
                invariant
                    0 <= i <= columns,
                    0 <= j < rows,
                    coordinate(x as int),
                    coordinate(y as int),
                    columns == source@.width,
                    rows == source@.height,
                    self@.wf(),
                    self@.width == old(self)@.width,
                    self@.height == old(self)@.height,
                    self.cached_empty() == old(self).cached_empty(),
                    forall|a: int, b: int|
                        old(self)@.in_bounds(a, b) ==> #[trigger] self@.at(a, b) == if b - y < j
                            || (b - y == j && a - x < i) {
                            old(self)@.overlay_source(source@, x as int, y as int, clear)(a, b)
                        } else {
                            old(self)@.at(a, b)
                        },
                decreases columns - i,
            {
                let p = source.cell(i, j);
                let shows = match clear {
                    Some(c) => p.chr != c,
                    None => true,
                };
                if shows {
                    self.put(x + i, y + j, p);
                }
                i += 1;
            }
            j += 1;
        }
        proof {
            lemma_is_from_fn(self@, old(self)@.overlay_source(source@, x as int, y as int, clear));
        }
    }

    /// Prints another screen onto this one with its top left corner at `(x, y)`.
    /// Cells of `source` that fall outside this screen are dropped.
    pub fn print_screen(&mut self, x: i32, y: i32, source: &Screen)
        ensures
            final(self)@ == old(self)@.overlaid(source@, x as int, y as int, None),
            final(self).cached_empty() == old(self).cached_empty(),
    {
        self.overlay(x, y, source, None);
    }

    /// Prints another screen onto this one with its top left corner at `(x, y)`,
    /// leaving out the cells of `source` that hold `alpha_character`: there this
    /// screen shows through.
    pub fn print_screen_alpha(&mut self, x: i32, y: i32, source: &Screen, alpha_character: char)
        ensures
            final(self)@ == old(self)@.overlaid(
                source@,
                x as int,
                y as int,
                Some(alpha_character),
            ),
            final(self).cached_empty() == old(self).cached_empty(),
    {
        self.overlay(x, y, source, Some(alpha_character));
    }
}

} // verus!
