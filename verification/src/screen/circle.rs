//! Circles, outlined and filled, by the midpoint method.

use vstd::prelude::*;
use crate::pixel::Pixel;
use crate::raster::{abs, lemma_painted, Shape};
use crate::screen::Screen;

verus! {

/// How far a circle of radius `r` reaches along one axis at the distance `k`
/// from its centre along the other, for the eighth of the circle where that
/// reach is not less than `k`. From one `k` to the next the reach stays or
/// drops by one, whichever leaves the cell closer to the true circle.
pub open spec fn circle_reach(r: int, k: int) -> int
    decreases k,
{
    if k <= 0 {
        r
    } else {
        let y = circle_reach(r, k - 1);
        if 2 * k * k + y * y + (y - 1) * (y - 1) - 2 * r * r < 0 {
            y
        } else {
            y - 1
        }
    }
}

/// The cells of the circle of radius `r` around `(cx, cy)`: the eighth of the
/// circle that `circle_reach` gives, mirrored into all eight. A circle of
/// radius zero has no cell.
pub open spec fn on_circle(cx: int, cy: int, r: int, x: int, y: int) -> bool {
    let a = abs(x - cx);
    let b = abs(y - cy);
    &&& r > 0
    &&& (a <= b && b == circle_reach(r, a)) || (b <= a && a == circle_reach(r, b))
}

/// The cells of the filled circle of radius `r` around `(cx, cy)`: for each cell
/// of the outline, the row from it to its mirror image.
pub open spec fn in_disc(cx: int, cy: int, r: int, x: int, y: int) -> bool {
    let a = abs(x - cx);
    let b = abs(y - cy);
    &&& r > 0
    &&& (b <= circle_reach(r, b) && a <= circle_reach(r, b)) || (exists|k: int|
        a <= k && k <= b && #[trigger] circle_reach(r, k) == b)
}

/// The shape of [`on_circle`].
pub open spec fn circle_shape(cx: int, cy: int, r: int) -> Shape {
    |x: int, y: int| on_circle(cx, cy, r, x, y)
}

/// The shape of [`in_disc`].
pub open spec fn disc_shape(cx: int, cy: int, r: int) -> Shape {
    |x: int, y: int| in_disc(cx, cy, r, x, y)
}

/// The reach never grows with the distance.
pub proof fn lemma_reach_falls(r: int, j: int, k: int)
    requires
        0 <= j <= k,
    ensures
        circle_reach(r, k) <= circle_reach(r, j),
    decreases k - j,
{
    if j < k {
        lemma_reach_falls(r, j, k - 1);
    }
}

/// The cells of the outline drawn while the distance was below `done`.
pub open spec fn on_circle_before(cx: int, cy: int, r: int, done: int, x: int, y: int) -> bool {
    let a = abs(x - cx);
    let b = abs(y - cy);
    (a <= b && b == circle_reach(r, a) && a < done) || (b <= a && a == circle_reach(r, b) && b
        < done)
}

/// The cells of the disc filled while the distance was below `done`.
pub open spec fn in_disc_before(cx: int, cy: int, r: int, done: int, x: int, y: int) -> bool {
    let a = abs(x - cx);
    let b = abs(y - cy);
    (0 <= b < done && a <= circle_reach(r, b)) || (exists|k: int|
        a <= k && k < done && #[trigger] circle_reach(r, k) == b)
}

/// The eight cells at the distances `rx` and `ry` from the centre.
pub open spec fn ring(cx: int, cy: int, rx: int, ry: int, x: int, y: int) -> bool {
    let a = abs(x - cx);
    let b = abs(y - cy);
    (a == rx && b == ry) || (a == ry && b == rx)
}

/// The four rows between the eight cells at the distances `rx` and `ry` from the
/// centre.
pub open spec fn bands(cx: int, cy: int, rx: int, ry: int, x: int, y: int) -> bool {
    let a = abs(x - cx);
    let b = abs(y - cy);
    (b == ry && a <= rx) || (b == rx && a <= ry)
}

/// The value the midpoint method decides by at the distance `rx` with the reach
/// `ry`.
pub open spec fn decision(r: int, rx: int, ry: int) -> int {
    2 * (rx + 1) * (rx + 1) + ry * ry + (ry - 1) * (ry - 1) - 2 * r * r
}

/// How the decision value changes from one distance to the next, and how large
/// it gets.
proof fn lemma_decision(r: int, rx: int, ry: int)
    requires
        0 <= r <= 0xffff_ffff,
        0 <= rx <= 0x1_0000_0000,
        -1 <= ry <= 0x1_0000_0000,
    ensures
        decision(r, rx + 1, ry) == decision(r, rx, ry) + 4 * rx + 6,
        decision(r, rx + 1, ry - 1) == decision(r, rx, ry) + 4 * (rx - ry) + 10,
        -0x8_0000_0000_0000_0000 <= decision(r, rx, ry) <= 0x8_0000_0000_0000_0000,
{
    assert(2 * (rx + 2) * (rx + 2) == 2 * (rx + 1) * (rx + 1) + 4 * rx + 6) by (nonlinear_arith);
    assert((ry - 2) * (ry - 2) == ry * ry - 4 * ry + 4) by (nonlinear_arith);
    assert(0 <= (rx + 1) * (rx + 1) <= 0x1_0000_0001 * 0x1_0000_0001) by (nonlinear_arith)
        requires
            0 <= rx <= 0x1_0000_0000,
    ;
    assert(0 <= ry * ry <= 0x1_0000_0000 * 0x1_0000_0000) by (nonlinear_arith)
        requires
            -1 <= ry <= 0x1_0000_0000,
    ;
    assert(0 <= (ry - 1) * (ry - 1) <= 0x1_0000_0000 * 0x1_0000_0000) by (nonlinear_arith)
        requires
            -1 <= ry <= 0x1_0000_0000,
    ;
    assert(0 <= r * r <= 0x1_0000_0000 * 0x1_0000_0000) by (nonlinear_arith)
        requires
            0 <= r <= 0xffff_ffff,
    ;
    assert(2 * (rx + 1) * (rx + 1) == 2 * ((rx + 1) * (rx + 1))) by (nonlinear_arith);
    assert(2 * (rx + 2) * (rx + 2) == 2 * ((rx + 2) * (rx + 2))) by (nonlinear_arith);
    assert(2 * r * r == 2 * (r * r)) by (nonlinear_arith);
}

impl Screen {
    /// Paints the eight cells at the distances `rx` and `ry` from `(cx, cy)`.
    fn ring_cells(&mut self, cx: i64, cy: i64, rx: i64, ry: i64, p: Pixel)
        requires
            -0x8000_0000 <= cx <= 0x7fff_ffff,
            -0x8000_0000 <= cy <= 0x7fff_ffff,
            0 <= rx <= ry <= 0x1_0000_0000,
        ensures
            final(self)@.wf(),
            final(self)@.width == old(self)@.width,
            final(self)@.height == old(self)@.height,
            final(self).cached_empty() == old(self).cached_empty(),
            forall|x: int, y: int|
                old(self)@.in_bounds(x, y) ==> #[trigger] final(self)@.at(x, y) == if ring(
                    cx as int,
                    cy as int,
                    rx as int,
                    ry as int,
                    x,
                    y,
                ) {
                    p
                } else {
                    old(self)@.at(x, y)
                },
    {
        self.put(cx + rx, cy - ry, p);
        self.put(cx + ry, cy - rx, p);
        self.put(cx + ry, cy + rx, p);
        self.put(cx + rx, cy + ry, p);
        self.put(cx - rx, cy + ry, p);
        self.put(cx - ry, cy + rx, p);
        self.put(cx - ry, cy - rx, p);
        self.put(cx - rx, cy - ry, p);
    }

    /// Paints the four rows between the eight cells at the distances `rx` and
    /// `ry` from `(cx, cy)`.
    fn ring_rows(&mut self, cx: i64, cy: i64, rx: i64, ry: i64, p: Pixel)
        requires
            -0x8000_0000 <= cx <= 0x7fff_ffff,
            -0x8000_0000 <= cy <= 0x7fff_ffff,
            0 <= rx <= ry <= 0x1_0000_0000,
        ensures
            final(self)@.wf(),
            final(self)@.width == old(self)@.width,
            final(self)@.height == old(self)@.height,
            final(self).cached_empty() == old(self).cached_empty(),
            forall|x: int, y: int|
                old(self)@.in_bounds(x, y) ==> #[trigger] final(self)@.at(x, y) == if bands(
                    cx as int,
                    cy as int,
                    rx as int,
                    ry as int,
                    x,
                    y,
                ) {
                    p
                } else {
                    old(self)@.at(x, y)
                },
    {
        self.run(cx - rx, cy - ry, cx + rx, p);
        self.run(cx - ry, cy - rx, cx + ry, p);
        self.run(cx - rx, cy + ry, cx + rx, p);
        self.run(cx - ry, cy + rx, cx + ry, p);
    }

    /// Draws the circle of the given radius around `(x, y)`. A radius of zero
    /// draws nothing.
    pub fn circle(&mut self, x: i32, y: i32, radius: u32, character: Pixel)
        ensures
            final(self)@ == old(self)@.paint(
                circle_shape(x as int, y as int, radius as int),
                character,
            ),
            final(self).cached_empty() == old(self).cached_empty(),
    {
        let cx = x as i64;
        let cy = y as i64;
        let r = radius as i64;
        proof {
            use_type_invariant(&*self);
        }
        if radius != 0 {
            let mut rx: i64 = 0;
            let mut ry: i64 = r;
            proof {
                lemma_decision(r as int, 0, r as int);
                assert(decision(r as int, 0, r as int) == 3 - 2 * r) by (nonlinear_arith);
            }
            let mut d: i128 = 3 - 2 * (r as i128);
            while ry >= rx
                invariant
                    cx == x,
                    cy == y,
                    0 < r == radius,
                    0 <= rx <= ry + 2,
                    ry <= r,
                    ry == circle_reach(r as int, rx as int),
                    d == decision(r as int, rx as int, ry as int),
                    self@.wf(),
                    self@.width == old(self)@.width,
                    self@.height == old(self)@.height,
                    self.cached_empty() == old(self).cached_empty(),
                    forall|i: int, j: int|
                        old(self)@.in_bounds(i, j) ==> #[trigger] self@.at(i, j)
                            == if on_circle_before(
                            cx as int,
                            cy as int,
                            r as int,
                            rx as int,
                            i,
                            j,
                        ) {
                            character
                        } else {
                            old(self)@.at(i, j)
                        },
                decreases ry - rx + 2,
            {
                self.ring_cells(cx, cy, rx, ry, character);
                proof {
                    lemma_decision(r as int, rx as int, ry as int);
                    assert(2 * (rx + 1) * (rx + 1) + ry * ry + (ry - 1) * (ry - 1) - 2 * r * r
                        == decision(r as int, rx as int, ry as int));
                }
                if d < 0 {
                    d += 4 * (rx as i128) + 6;
                    rx += 1;
                } else {
                    d += 4 * ((rx - ry) as i128) + 10;
                    rx += 1;
                    ry -= 1;
                }
            }
            proof {
                assert forall|i: int, j: int| old(self)@.in_bounds(i, j) implies (on_circle_before(
                    cx as int,
                    cy as int,
                    r as int,
                    rx as int,
                    i,
                    j,
                ) <==> on_circle(cx as int, cy as int, r as int, i, j)) by {
                    let a = abs(i - cx);
                    let b = abs(j - cy);
                    if a >= rx {
                        lemma_reach_falls(r as int, rx as int, a);
                    }
                    if b >= rx {
                        lemma_reach_falls(r as int, rx as int, b);
                    }
                }
            }
        }
        proof {
            lemma_painted(
                old(self)@,
                self@,
                circle_shape(x as int, y as int, radius as int),
                character,
            );
        }
    }

    /// Fills the circle of the given radius around `(x, y)`, row by row between
    /// the cells of its outline. A radius of zero draws nothing.
    pub fn fill_circle(&mut self, x: i32, y: i32, radius: u32, character: Pixel)
        ensures
            final(self)@ == old(self)@.paint(
                disc_shape(x as int, y as int, radius as int),
                character,
            ),
            final(self).cached_empty() == old(self).cached_empty(),
    {
        let cx = x as i64;
        let cy = y as i64;
        let r = radius as i64;
        proof {
            use_type_invariant(&*self);
        }
        if radius != 0 {
            let mut rx: i64 = 0;
            let mut ry: i64 = r;
            proof {
                lemma_decision(r as int, 0, r as int);
                assert(decision(r as int, 0, r as int) == 3 - 2 * r) by (nonlinear_arith);
            }
            let mut d: i128 = 3 - 2 * (r as i128);
            while ry >= rx
                invariant
                    cx == x,
                    cy == y,
                    0 < r == radius,
                    0 <= rx <= ry + 2,
                    ry <= r,
                    ry == circle_reach(r as int, rx as int),
                    d == decision(r as int, rx as int, ry as int),
                    forall|k: int| 0 <= k < rx ==> k <= #[trigger] circle_reach(r as int, k),
                    self@.wf(),
                    self@.width == old(self)@.width,
                    self@.height == old(self)@.height,
                    self.cached_empty() == old(self).cached_empty(),
                    forall|i: int, j: int|
                        old(self)@.in_bounds(i, j) ==> #[trigger] self@.at(i, j)
                            == if in_disc_before(
                            cx as int,
                            cy as int,
                            r as int,
                            rx as int,
                            i,
                            j,
                        ) {
                            character
                        } else {
                            old(self)@.at(i, j)
                        },
                decreases ry - rx + 2,
            {
                let ghost before = self@;
                self.ring_rows(cx, cy, rx, ry, character);
                proof {
                    lemma_decision(r as int, rx as int, ry as int);
                    assert(2 * (rx + 1) * (rx + 1) + ry * ry + (ry - 1) * (ry - 1) - 2 * r * r
                        == decision(r as int, rx as int, ry as int));
                    assert forall|i: int, j: int| old(self)@.in_bounds(i, j) implies (in_disc_before(
                        cx as int,
                        cy as int,
                        r as int,
                        rx + 1,
                        i,
                        j,
                    ) <==> in_disc_before(cx as int, cy as int, r as int, rx as int, i, j) || bands(
                        cx as int,
                        cy as int,
                        rx as int,
                        ry as int,
                        i,
                        j,
                    )) by {
                        lemma_disc_step(cx as int, cy as int, r as int, rx as int, i, j);
                    }
                }
                if d < 0 {
                    d += 4 * (rx as i128) + 6;
                    rx += 1;
                } else {
                    d += 4 * ((rx - ry) as i128) + 10;
                    rx += 1;
                    ry -= 1;
                }
            }
            proof {
                assert forall|i: int, j: int| old(self)@.in_bounds(i, j) implies (in_disc_before(
                    cx as int,
                    cy as int,
                    r as int,
                    rx as int,
                    i,
                    j,
                ) <==> in_disc(cx as int, cy as int, r as int, i, j)) by {
                    lemma_disc_done(cx as int, cy as int, r as int, rx as int, i, j);
                }
            }
        }
        proof {
            lemma_painted(
                old(self)@,
                self@,
                disc_shape(x as int, y as int, radius as int),
                character,
            );
        }
    }
}

/// One more distance adds the four rows of that distance to the disc.
proof fn lemma_disc_step(cx: int, cy: int, r: int, done: int, x: int, y: int)
    requires
        0 <= done,
    ensures
        in_disc_before(cx, cy, r, done + 1, x, y) <==> in_disc_before(cx, cy, r, done, x, y)
            || bands(cx, cy, done, circle_reach(r, done), x, y),
{
    let a = abs(x - cx);
    let b = abs(y - cy);
    if in_disc_before(cx, cy, r, done + 1, x, y) {
        if !(0 <= b < done + 1 && a <= circle_reach(r, b)) {
            let k = choose|k: int| a <= k && k < done + 1 && #[trigger] circle_reach(r, k) == b;
            if k < done {
                assert(in_disc_before(cx, cy, r, done, x, y));
            }
        }
    }
    if bands(cx, cy, done, circle_reach(r, done), x, y) {
        if b == circle_reach(r, done) && a <= done {
            assert(a <= done && done < done + 1 && circle_reach(r, done) == b);
        }
    }
    if in_disc_before(cx, cy, r, done, x, y) {
        if !(0 <= b < done && a <= circle_reach(r, b)) {
            let k = choose|k: int| a <= k && k < done && #[trigger] circle_reach(r, k) == b;
            assert(a <= k && k < done + 1 && circle_reach(r, k) == b);
        }
    }
}

/// Once the reach has dropped below the distance, the disc is complete.
proof fn lemma_disc_done(cx: int, cy: int, r: int, done: int, x: int, y: int)
    requires
        r > 0,
        0 <= done,
        circle_reach(r, done) < done,
        forall|k: int| 0 <= k < done ==> k <= #[trigger] circle_reach(r, k),
    ensures
        in_disc_before(cx, cy, r, done, x, y) <==> in_disc(cx, cy, r, x, y),
{
    let a = abs(x - cx);
    let b = abs(y - cy);
    if in_disc_before(cx, cy, r, done, x, y) {
        if !(0 <= b < done && a <= circle_reach(r, b)) {
            let k = choose|k: int| a <= k && k < done && #[trigger] circle_reach(r, k) == b;
            assert(a <= k && k <= b && circle_reach(r, k) == b);
        }
    }
    if in_disc(cx, cy, r, x, y) {
        if b <= circle_reach(r, b) && a <= circle_reach(r, b) {
            if b >= done {
                lemma_reach_falls(r, done, b);
            }
        } else {
            let k = choose|k: int| a <= k && k <= b && #[trigger] circle_reach(r, k) == b;
            if k >= done {
                lemma_reach_falls(r, done, k);
            }
            assert(a <= k && k < done && circle_reach(r, k) == b);
        }
    }
}

} // verus!
