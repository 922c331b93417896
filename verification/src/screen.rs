//! Standalone screens: a buffer of pixels and the operations that read and
//! write single cells or the whole buffer.

use vstd::prelude::*;
use crate::color::Color;
use crate::grid::{lemma_index_bound, lemma_put_at, lemma_is_from_fn, Grid};
use crate::pixel::{blank, pxl_fbg, Pixel};

pub mod circle;
pub mod region;
pub mod scroll;
pub mod shapes;
pub mod text;
pub mod triangle;

verus! {

/// The character that marks a cell nothing was ever drawn to.
pub const NUL: char = '\u{0}';

/// A fixed-size buffer of pixels. Its view is the [`Grid`] it holds; beside it the
/// screen keeps a cached answer to "does every cell hold NUL?", which only
/// [`Screen::fill`], [`Screen::clear`] and [`Screen::check_empty`] refresh.
pub struct Screen {
    width: u32,
    height: u32,
    screen: Vec<Pixel>,
    empty: bool,
}

impl View for Screen {
    type V = Grid;

    closed spec fn view(&self) -> Grid {
        Grid { width: self.width as nat, height: self.height as nat, cells: self.screen@ }
    }
}

/// What a failed read reports: a function of the coordinates asked for and of the
/// largest valid column and row.
pub uninterp spec fn out_of_bounds_text(x: int, y: int, max_x: int, max_y: int) -> Seq<char>;

/// `format!` of std with four integers: the text names the coordinates that were
/// read and the largest column and row of the screen. The contract only names
/// the text; it depends on the four numbers alone.
#[verifier::external_body]
fn out_of_bounds_message(x: i32, y: i32, max_x: i64, max_y: i64) -> (msg: String)
    ensures
        msg@ == out_of_bounds_text(x as int, y as int, max_x as int, max_y as int),
{
    format!(
        "Attempted to get_pxl out of bounds (coords: [{}, {}], bounds: [{}, {}])",
        x, y, max_x, max_y
    )
}

impl Clone for Screen {
    fn clone(&self) -> (copy: Self)
        ensures
            copy@ == self@,
            copy.cached_empty() == self.cached_empty(),
    {
        proof {
            use_type_invariant(self);
        }
        let cells = self.screen.clone();
        assert(cells@ =~= self.screen@);
        Screen { width: self.width, height: self.height, screen: cells, empty: self.empty }
    }
}

impl Screen {
    #[verifier::type_invariant]
    spec fn inv(self) -> bool {
        self.screen@.len() == self.width * self.height
    }

    /// The cached answer to "does every cell hold NUL?". It may be stale.
    pub closed spec fn cached_empty(&self) -> bool {
        self.empty
    }

    /// A screen of the given size with a blank in every cell.
    pub fn new(width: u32, height: u32) -> (scr: Screen)
        requires
            width * height <= usize::MAX,
        ensures
            scr@ == Grid::filled(width as nat, height as nat, blank()),
            scr@.wf(),
            !scr.cached_empty(),
    {
        Self::new_fill(width, height, Pixel { bg: Color::Reset, fg: Color::Reset, chr: ' ' })
    }

    /// A screen of the given size with NUL in every cell, marked empty.
    pub fn new_empty(width: u32, height: u32) -> (scr: Screen)
        requires
            width * height <= usize::MAX,
        ensures
            scr@ == Grid::filled(
                width as nat,
                height as nat,
                Pixel { bg: Color::Reset, fg: Color::Reset, chr: NUL },
            ),
            scr@.wf(),
            scr.cached_empty(),
    {
        let filled = Self::new_fill(
            width,
            height,
            Pixel { bg: Color::Reset, fg: Color::Reset, chr: NUL },
        );
        proof {
            use_type_invariant(&filled);
        }
        Screen { width: filled.width, height: filled.height, screen: filled.screen, empty: true }
    }

    /// A screen of the given size with `pixel` in every cell.
    pub fn new_fill(width: u32, height: u32, pixel: Pixel) -> (scr: Screen)
        requires
            width * height <= usize::MAX,
        ensures
            scr@ == Grid::filled(width as nat, height as nat, pixel),
            scr@.wf(),
            !scr.cached_empty(),
    {
        assert((width as usize) * (height as usize) == width * height) by (nonlinear_arith)
            requires
                width * height <= usize::MAX,
        ;
        let n: usize = (width as usize) * (height as usize);
        let cells = vec![pixel; n];
        let scr = Screen { width, height, screen: cells, empty: false };
        proof {
            assert(scr@.wf());
            assert forall|x: int, y: int| scr@.in_bounds(x, y) implies #[trigger] scr@.at(x, y)
                == pixel by {
                lemma_index_bound(width as int, height as int, x, y);
            }
            lemma_is_from_fn(scr@, |x: int, y: int| pixel);
        }
        scr
    }

    /// A screen of the given size over the cells of `vec`, row by row. The length
    /// of `vec` is `width * height`.
    pub fn from_vec(vec: Vec<Pixel>, width: u32, height: u32) -> (scr: Screen)
        requires
            vec@.len() == width * height,
        ensures
            scr@ == (Grid { width: width as nat, height: height as nat, cells: vec@ }),
            scr@.wf(),
            !scr.cached_empty(),
    {
        Screen { width, height, screen: vec, empty: false }
    }

    /// A screen of the given size whose cells hold the characters of `string`, row
    /// by row, each in the colours `fg` on `bg`. The number of characters is
    /// `width * height`.
    pub fn from_string(string: String, fg: Color, bg: Color, width: u32, height: u32) -> (scr:
        Screen)
        requires
            string@.len() == width * height,
        ensures
            scr@.width == width,
            scr@.height == height,
            scr@.cells.len() == string@.len(),
            forall|i: int|
                0 <= i < string@.len() ==> #[trigger] scr@.cells[i] == (Pixel {
                    bg,
                    fg,
                    chr: string@[i],
                }),
            !scr.cached_empty(),
    {
        let mut cells: Vec<Pixel> = Vec::new();
        let text = string.as_str();
        for chr in it: text.chars()
            invariant
                it.seq() == string@,
                cells@.len() == it.index(),
                forall|i: int|
                    0 <= i < it.index() ==> #[trigger] cells@[i] == (Pixel {
                        bg,
                        fg,
                        chr: string@[i],
                    }),
        {
            cells.push(pxl_fbg(chr, fg, bg));
        }
        Screen::from_vec(cells, width, height)
    }

    /// The number of columns.
    pub fn get_width(&self) -> (w: u32)
        ensures
            w == self@.width,
            self@.wf(),
            self@.width * self@.height <= usize::MAX,
    {
        proof {
            use_type_invariant(self);
            assert(self.screen.len() == self.screen@.len());
        }
        self.width
    }

    /// The number of rows.
    pub fn get_height(&self) -> (h: u32)
        ensures
            h == self@.height,
    {
        self.height
    }

    /// Writes a blank to every cell.
    pub fn clear(&mut self)
        ensures
            final(self)@ == Grid::filled(old(self)@.width, old(self)@.height, blank()),
            final(self)@.wf(),
            !final(self).cached_empty(),
    {
        self.fill(Pixel { bg: Color::Reset, fg: Color::Reset, chr: ' ' });
    }

    /// Writes `pixel` to every cell. The screen counts as empty afterwards if and
    /// only if the character written is NUL.
    pub fn fill(&mut self, pixel: Pixel)
        ensures
            final(self)@ == Grid::filled(old(self)@.width, old(self)@.height, pixel),
            final(self)@.wf(),
            final(self).cached_empty() == (pixel.chr == NUL),
    {
        proof {
            use_type_invariant(&*self);
        }
        let n = self.screen.len();
        let cells = vec![pixel; n];
        let filled = Screen {
            width: self.width,
            height: self.height,
            screen: cells,
            empty: pixel.chr == NUL,
        };
        proof {
            assert forall|x: int, y: int| filled@.in_bounds(x, y) implies #[trigger] filled@.at(
                x,
                y,
            ) == pixel by {
                lemma_index_bound(self.width as int, self.height as int, x, y);
            }
            lemma_is_from_fn(filled@, |x: int, y: int| pixel);
        }
        *self = filled;
    }

    /// Looks at every cell, caches whether all of them hold NUL, and returns
    /// that answer.
    pub fn check_empty(&mut self) -> (empty: bool)
        ensures
            empty == old(self)@.all_chr(NUL),
            final(self).cached_empty() == empty,
            final(self)@ == old(self)@,
    {
        let mut i: usize = 0;
        while i < self.screen.len()
            invariant
                *self == *old(self),
                i <= self.screen@.len(),
                forall|j: int| 0 <= j < i ==> (#[trigger] self.screen@[j]).chr == NUL,
            decreases self.screen@.len() - i,
        {
            proof {
                use_type_invariant(&*self);
            }
            if self.screen[i].chr != NUL {
                self.empty = false;
                return false;
            }
            i += 1;
        }
        proof {
            use_type_invariant(&*self);
        }
        self.empty = true;
        true
    }

    /// The answer cached by the last [`Screen::fill`], [`Screen::clear`] or
    /// [`Screen::check_empty`], without looking at the cells.
    pub fn is_empty(&self) -> (empty: bool)
        ensures
            empty == self.cached_empty(),
    {
        self.empty
    }

    /// Writes `character` at `(x, y)`. Does nothing where `(x, y)` names no cell.
    pub fn set_pxl(&mut self, x: i32, y: i32, character: Pixel)
        ensures
            final(self)@ == old(self)@.put(x as int, y as int, character),
            final(self)@.wf(),
            final(self).cached_empty() == old(self).cached_empty(),
    {
        self.put(x as i64, y as i64, character);
    }

    /// The pixel at `(x, y)`, or, where `(x, y)` names no cell, the text that
    /// reports the coordinates and the largest valid column and row.
    pub fn get_pxl(&self, x: i32, y: i32) -> (res: Result<Pixel, String>)
        ensures
            self@.in_bounds(x as int, y as int) ==> res == Ok::<Pixel, String>(
                self@.at(x as int, y as int),
            ),
            !self@.in_bounds(x as int, y as int) ==> res is Err && res->Err_0@
                == out_of_bounds_text(
                x as int,
                y as int,
                self@.width - 1,
                self@.height - 1,
            ),
    {
        match self.peek(x as i64, y as i64) {
            Some(p) => Ok(p),
            None => Err(
                out_of_bounds_message(x, y, self.width as i64 - 1, self.height as i64 - 1),
            ),
        }
    }

    /// The pixel at `(x, y)`, if that names a cell.
    pub(crate) fn peek(&self, x: i64, y: i64) -> (res: Option<Pixel>)
        ensures
            res == if self@.in_bounds(x as int, y as int) {
                Some(self@.at(x as int, y as int))
            } else {
                None
            },
    {
        proof {
            use_type_invariant(self);
            assert(self.screen.len() == self.screen@.len());
        }
        if x >= 0 && y >= 0 && x < self.width as i64 && y < self.height as i64 {
            proof {
                lemma_index_bound(self.width as int, self.height as int, x as int, y as int);
                assert(y * self.width == y * (self.width as int));
            }
            let index: usize = (y as usize) * (self.width as usize) + (x as usize);
            Some(self.screen[index])
        } else {
            None
        }
    }

    /// The pixel at `(x, y)`, which names a cell.
    pub(crate) fn cell(&self, x: i64, y: i64) -> (p: Pixel)
        requires
            self@.in_bounds(x as int, y as int),
        ensures
            p == self@.at(x as int, y as int),
    {
        proof {
            use_type_invariant(self);
            assert(self.screen.len() == self.screen@.len());
            lemma_index_bound(self.width as int, self.height as int, x as int, y as int);
            assert(y * self.width == y * (self.width as int));
        }
        let index: usize = (y as usize) * (self.width as usize) + (x as usize);
        self.screen[index]
    }

    /// Writes `p` at `(x, y)`, for coordinates of any size.
    pub(crate) fn put(&mut self, x: i64, y: i64, p: Pixel)
        ensures
            final(self)@ == old(self)@.put(x as int, y as int, p),
            final(self)@.wf(),
            final(self).cached_empty() == old(self).cached_empty(),
            forall|i: int, j: int|
                old(self)@.in_bounds(i, j) ==> #[trigger] final(self)@.at(i, j) == if i == x && j
                    == y {
                    p
                } else {
                    old(self)@.at(i, j)
                },
    {
        proof {
            use_type_invariant(&*self);
            assert(self.screen.len() == self.screen@.len());
        }
        if x >= 0 && y >= 0 && x < self.width as i64 && y < self.height as i64 {
            proof {
                lemma_index_bound(self.width as int, self.height as int, x as int, y as int);
                assert(y * self.width == y * (self.width as int));
            }
            let index: usize = (y as usize) * (self.width as usize) + (x as usize);
            self.screen[index] = p;
        }
        proof {
            assert forall|i: int, j: int| old(self)@.in_bounds(i, j) implies #[trigger] self@.at(
                i,
                j,
            ) == if i == x && j == y {
                p
            } else {
                old(self)@.at(i, j)
            } by {
                lemma_put_at(old(self)@, x as int, y as int, p, i, j);
            }
        }
    }
}

} // verus!
