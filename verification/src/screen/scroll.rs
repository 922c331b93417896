//! Scrolling: moving the whole content of a screen by columns and rows.

use vstd::prelude::*;
use crate::grid::{lemma_is_from_fn, Grid};
use crate::pixel::Pixel;
use crate::raster::abs;
use crate::screen::{Screen, NUL};

verus! {

/// The column (rows are scrolled) or row (columns are scrolled) of a cell: the
/// line it moves along.
pub open spec fn lane(vertical: bool, x: int, y: int) -> int {
    if vertical {
        x
    } else {
        y
    }
}

/// The place of a cell on its lane.
pub open spec fn place(vertical: bool, x: int, y: int) -> int {
    if vertical {
        y
    } else {
        x
    }
}

/// The pixel that stands `s` places further along the lane of `(x, y)`, or `bg`
/// where the lane ends before.
pub open spec fn ahead(g: Grid, vertical: bool, s: int, bg: Pixel, x: int, y: int) -> Pixel {
    if vertical {
        g.shift_source(0, s, bg)(x, y)
    } else {
        g.shift_source(s, 0, bg)(x, y)
    }
}

/// Whether a scroll by `by` along an axis of `len` cells leaves nothing of the
/// content.
pub open spec fn scroll_clears(len: nat, by: int) -> bool {
    by != 0 && abs(by) >= len
}

/// The cached emptiness after a scroll: a scroll that clears the screen fills it
/// and so refreshes the cache; any other scroll leaves the cache alone.
pub open spec fn scroll_empty(
    before: bool,
    width: nat,
    height: nat,
    h_scroll: int,
    v_scroll: int,
    background: Pixel,
) -> bool {
    if scroll_clears(width, h_scroll) || scroll_clears(height, v_scroll) {
        background.chr == NUL
    } else {
        before
    }
}

impl Screen {
    /// The pixel at place `k` of lane `l`.
    fn lane_get(&self, vertical: bool, l: i64, k: i64) -> (p: Pixel)
        requires
            self@.in_bounds(
                if vertical {
                    l as int
                } else {
                    k as int
                },
                if vertical {
                    k as int
                } else {
                    l as int
                },
            ),
        ensures
            p == self@.at(
                if vertical {
                    l as int
                } else {
                    k as int
                },
                if vertical {
                    k as int
                } else {
                    l as int
                },
            ),
    {
        if vertical {
            self.cell(l, k)
        } else {
            self.cell(k, l)
        }
    }

    /// Writes `p` at place `k` of lane `l`.
    fn lane_set(&mut self, vertical: bool, l: i64, k: i64, p: Pixel)
        ensures
            final(self)@.wf(),
            final(self)@.width == old(self)@.width,
            final(self)@.height == old(self)@.height,
            final(self).cached_empty() == old(self).cached_empty(),
            forall|x: int, y: int|
                old(self)@.in_bounds(x, y) ==> #[trigger] final(self)@.at(x, y) == if lane(
                    vertical,
                    x,
                    y,
                ) == l && place(vertical, x, y) == k {
                    p
                } else {
                    old(self)@.at(x, y)
                },
    {
        if vertical {
            self.put(l, k, p);
        } else {
            self.put(k, l, p);
        }
    }

    /// Moves the content of lane `l` by `s` places towards its start (towards its
    /// end where `s` is negative) and writes `bg` to the places left free. The
    /// cells are copied in the order in which no cell is overwritten before it was
    /// read.
    fn shift_lane(&mut self, vertical: bool, l: i64, s: i64, bg: Pixel)
        requires
            0 <= l < lane(vertical, old(self)@.width as int, old(self)@.height as int),
            s != 0,
            abs(s as int) < place(vertical, old(self)@.width as int, old(self)@.height as int),
        ensures
            final(self)@.wf(),
            final(self)@.width == old(self)@.width,
            final(self)@.height == old(self)@.height,
            final(self).cached_empty() == old(self).cached_empty(),
            forall|x: int, y: int|
                old(self)@.in_bounds(x, y) ==> #[trigger] final(self)@.at(x, y) == if lane(
                    vertical,
                    x,
                    y,
                ) == l {
                    ahead(old(self)@, vertical, s as int, bg, x, y)
                } else {
                    old(self)@.at(x, y)
                },
    {
        let count: i64 = if vertical {
            self.get_height() as i64
        } else {
            self.get_width() as i64
        };
        let ghost base = self@;
        proof {
            use_type_invariant(&*self);
        }
        if s > 0 {
            let mut k: i64 = s;
            while k < count
                invariant
                    0 < s <= k <= count,
                    count == place(vertical, base.width as int, base.height as int),
                    0 <= l < lane(vertical, base.width as int, base.height as int),
                    base == old(self)@,
                    self@.wf(),
                    self@.width == base.width,
                    self@.height == base.height,
                    self.cached_empty() == old(self).cached_empty(),
                    forall|x: int, y: int|
                        base.in_bounds(x, y) ==> #[trigger] self@.at(x, y) == if lane(
                            vertical,
                            x,
                            y,
                        ) == l && place(vertical, x, y) < k - s {
                            ahead(base, vertical, s as int, bg, x, y)
                        } else {
                            base.at(x, y)
                        },
                decreases count - k,
            {
                let p = self.lane_get(vertical, l, k);
                self.lane_set(vertical, l, k - s, p);
                k += 1;
            }
            let mut k: i64 = count - s;
            while k < count
                invariant
                    0 < s < count,
                    count - s <= k <= count,
                    count == place(vertical, base.width as int, base.height as int),
                    0 <= l < lane(vertical, base.width as int, base.height as int),
                    base == old(self)@,
                    self@.wf(),
                    self@.width == base.width,
                    self@.height == base.height,
                    self.cached_empty() == old(self).cached_empty(),
                    forall|x: int, y: int|
                        base.in_bounds(x, y) ==> #[trigger] self@.at(x, y) == if lane(
                            vertical,
                            x,
                            y,
                        ) == l && place(vertical, x, y) < k {
                            ahead(base, vertical, s as int, bg, x, y)
                        } else {
                            base.at(x, y)
                        },
                decreases count - k,
            {
                self.lane_set(vertical, l, k, bg);
                k += 1;
            }
        } else {
            let t: i64 = -s;
            let mut k: i64 = count - t;
            while k > 0
                invariant
                    0 < t < count,
                    t == -s,
                    0 <= k <= count - t,
                    count == place(vertical, base.width as int, base.height as int),
                    0 <= l < lane(vertical, base.width as int, base.height as int),
                    base == old(self)@,
                    self@.wf(),
                    self@.width == base.width,
                    self@.height == base.height,
                    self.cached_empty() == old(self).cached_empty(),
                    forall|x: int, y: int|
                        base.in_bounds(x, y) ==> #[trigger] self@.at(x, y) == if lane(
                            vertical,
                            x,
                            y,
                        ) == l && place(vertical, x, y) >= k + t {
                            ahead(base, vertical, s as int, bg, x, y)
                        } else {
                            base.at(x, y)
                        },
                decreases k,
            {
                k -= 1;
                let p = self.lane_get(vertical, l, k);
                self.lane_set(vertical, l, k + t, p);
            }
            let mut k: i64 = 0;
            while k < t
                invariant
                    0 < t < count,
                    t == -s,
                    0 <= k <= t,
                    count == place(vertical, base.width as int, base.height as int),
                    0 <= l < lane(vertical, base.width as int, base.height as int),
                    base == old(self)@,
                    self@.wf(),
                    self@.width == base.width,
                    self@.height == base.height,
                    self.cached_empty() == old(self).cached_empty(),
                    forall|x: int, y: int|
                        base.in_bounds(x, y) ==> #[trigger] self@.at(x, y) == if lane(
                            vertical,
                            x,
                            y,
                        ) == l && (place(vertical, x, y) >= t || place(vertical, x, y) < k) {
                            ahead(base, vertical, s as int, bg, x, y)
                        } else {
                            base.at(x, y)
                        },
                decreases t - k,
            {
                self.lane_set(vertical, l, k, bg);
                k += 1;
            }
        }
    }

    /// Moves the content of every lane by `s` places.
    fn shift_lanes(&mut self, vertical: bool, s: i64, bg: Pixel)
        requires
            s != 0,
            abs(s as int) < place(vertical, old(self)@.width as int, old(self)@.height as int),
        ensures
            final(self)@ == if vertical {
                old(self)@.shifted(0, s as int, bg)
            } else {
                old(self)@.shifted(s as int, 0, bg)
            },
            final(self).cached_empty() == old(self).cached_empty(),
    {
        let lanes: i64 = if vertical {
            self.get_width() as i64
        } else {
            self.get_height() as i64
        };
        let ghost base = self@;
        proof {
            use_type_invariant(&*self);
        }
        let mut l: i64 = 0;
        while l < lanes
            invariant
                0 <= l <= lanes,
                lanes == lane(vertical, base.width as int, base.height as int),
                s != 0,
                abs(s as int) < place(vertical, base.width as int, base.height as int),
                base == old(self)@,
                self@.wf(),
                self@.width == base.width,
                self@.height == base.height,
                self.cached_empty() == old(self).cached_empty(),
                forall|x: int, y: int|
                    base.in_bounds(x, y) ==> #[trigger] self@.at(x, y) == if lane(vertical, x, y)
                        < l {
                        ahead(base, vertical, s as int, bg, x, y)
                    } else {
                        base.at(x, y)
                    },
            decreases lanes - l,
        {
            let ghost row = self@;
            self.shift_lane(vertical, l, s, bg);
            proof {
                assert forall|x: int, y: int| base.in_bounds(x, y) implies #[trigger] self@.at(
                    x,
                    y,
                ) == if lane(vertical, x, y) < l + 1 {
                    ahead(base, vertical, s as int, bg, x, y)
                } else {
                    base.at(x, y)
                } by {
                    if lane(vertical, x, y) == l {
                        // The cells this lane was copied from had not moved yet.
                        let (sx, sy) = if vertical {
                            (x, y + s)
                        } else {
                            (x + s, y)
                        };
                        if base.in_bounds(sx, sy) {
                            assert(row.at(sx, sy) == base.at(sx, sy));
                        }
                    } else {
                        assert(self@.at(x, y) == row.at(x, y));
                    }
                }
            }
            l += 1;
        }
        proof {
            if vertical {
                lemma_is_from_fn(self@, base.shift_source(0, s as int, bg));
            } else {
                lemma_is_from_fn(self@, base.shift_source(s as int, 0, bg));
            }
        }
    }

    /// Moves the content along one axis, or clears the screen where the move is
    /// at least as long as the axis.
    fn scroll_axis(&mut self, vertical: bool, by: i32, background: Pixel)
        ensures
            final(self)@ == if vertical {
                old(self)@.shifted(0, by as int, background)
            } else {
                old(self)@.shifted(by as int, 0, background)
            },
            final(self).cached_empty() == if scroll_clears(
                place(vertical, old(self)@.width as int, old(self)@.height as int) as nat,
                by as int,
            ) {
                background.chr == NUL
            } else {
                old(self).cached_empty()
            },
    {
        let len: i64 = if vertical {
            self.get_height() as i64
        } else {
            self.get_width() as i64
        };
        let ghost base = self@;
        proof {
            use_type_invariant(&*self);
        }
        let by = by as i64;
        if by != 0 {
            if by >= len || by <= -len {
                self.fill(background);
                proof {
                    assert forall|x: int, y: int| self@.in_bounds(x, y) implies #[trigger] self@.at(
                        x,
                        y,
                    ) == ahead(base, vertical, by as int, background, x, y) by {
                        crate::grid::lemma_from_fn_at(
                            base.width,
                            base.height,
                            |x: int, y: int| background,
                            x,
                            y,
                        );
                    }
                    if vertical {
                        lemma_is_from_fn(self@, base.shift_source(0, by as int, background));
                    } else {
                        lemma_is_from_fn(self@, base.shift_source(by as int, 0, background));
                    }
                }
            } else {
                self.shift_lanes(vertical, by, background);
            }
        } else {
            proof {
                lemma_is_from_fn(self@, base.shift_source(0, 0, background));
            }
        }
    }

    /// Scrolls the content by `h_scroll` columns to the left and then by
    /// `v_scroll` rows up; a negative amount scrolls to the right or down. What is
    /// pushed over an edge is lost, and the cells left free hold `background`. A
    /// scroll at least as long as the screen is wide (or high) clears the screen
    /// to `background`, as [`Screen::fill`] does.
    pub fn scroll(&mut self, h_scroll: i32, v_scroll: i32, background: Pixel)
        ensures
            final(self)@ == old(self)@.shifted(h_scroll as int, 0, background).shifted(
                0,
                v_scroll as int,
                background,
            ),
            final(self).cached_empty() == scroll_empty(
                old(self).cached_empty(),
                old(self)@.width,
                old(self)@.height,
                h_scroll as int,
                v_scroll as int,
                background,
            ),
    {
        self.scroll_axis(false, h_scroll, background);
        self.scroll_axis(true, v_scroll, background);
    }
}

} // verus!
