//! Text: printing a string onto a screen.

use vstd::prelude::*;
use vstd::math::max;
use crate::color::Color;
use crate::grid::Grid;
use crate::pixel::{pxl_fbg, Pixel};
use crate::screen::Screen;

verus! {

/// Where the next character of a text goes.
pub struct Cursor {
    /// The row that is written to.
    pub row: int,
    /// The column of the next character. At the right border it stays, and
    /// nothing more is written to the row.
    pub col: int,
    /// How many characters of this line are still to be left out, because they
    /// stand left of the screen.
    pub skip: int,
    /// The text has run below the last row: nothing more is written.
    pub done: bool,
}

/// The character a cell gets for `c`: a tab counts as one space.
pub open spec fn shown(c: char) -> char {
    if c == '\t' {
        ' '
    } else {
        c
    }
}

/// Whether `c` is written to the screen when the cursor is `cursor`.
pub open spec fn is_written(cursor: Cursor, c: char, width: int) -> bool {
    !cursor.done && c != '\n' && c != '\r' && cursor.skip <= 0 && cursor.col < width
}

/// The cursor after `c`, for a text printed at column `x`. A new line goes one row
/// down and back to the column the text started in, and leaves out the start of
/// the line again where that column is left of the screen. A carriage return
/// goes back to the start column on the same row. Any other character is left
/// out, or written, or dropped at the right border.
pub open spec fn advance(cursor: Cursor, c: char, x: int, width: int, height: int) -> Cursor {
    if cursor.done {
        cursor
    } else if c == '\n' {
        if cursor.row + 1 >= height {
            Cursor { row: cursor.row + 1, col: cursor.col, skip: max(-x, 0), done: true }
        } else {
            Cursor { row: cursor.row + 1, col: max(x, 0), skip: max(-x, 0), done: false }
        }
    } else if c == '\r' {
        Cursor { col: max(x, 0), ..cursor }
    } else if cursor.skip > 0 {
        Cursor { skip: cursor.skip - 1, ..cursor }
    } else if cursor.col < width {
        Cursor { col: cursor.col + 1, ..cursor }
    } else {
        cursor
    }
}

/// The cursor after the first `k` characters of `text`.
pub open spec fn cursor_after(
    text: Seq<char>,
    k: nat,
    start: Cursor,
    x: int,
    width: int,
    height: int,
) -> Cursor
    decreases k,
{
    if k == 0 {
        start
    } else {
        advance(
            cursor_after(text, (k - 1) as nat, start, x, width, height),
            text[k - 1],
            x,
            width,
            height,
        )
    }
}

/// The grid after the first `k` characters of `text` were printed in the colours
/// `fg` on `bg`.
pub open spec fn typed(
    g: Grid,
    text: Seq<char>,
    k: nat,
    start: Cursor,
    x: int,
    fg: Color,
    bg: Color,
) -> Grid
    decreases k,
{
    if k == 0 {
        g
    } else {
        let before = typed(g, text, (k - 1) as nat, start, x, fg, bg);
        let cursor = cursor_after(
            text,
            (k - 1) as nat,
            start,
            x,
            g.width as int,
            g.height as int,
        );
        if is_written(cursor, text[k - 1], g.width as int) {
            before.put(cursor.col, cursor.row, Pixel { bg, fg, chr: shown(text[k - 1]) })
        } else {
            before
        }
    }
}

/// The text without its first `n` lines; nothing where it has no more than `n`
/// lines.
pub open spec fn skip_lines(text: Seq<char>, n: int) -> Seq<char>
    decreases text.len(),
{
    if n <= 0 || text.len() == 0 {
        text
    } else if text[0] == '\n' {
        skip_lines(text.drop_first(), n - 1)
    } else {
        skip_lines(text.drop_first(), n)
    }
}

/// The grid after `text` was printed at `(x, y)`. Nothing is printed where
/// `(x, y)` lies right of the screen or below it. Where it lies above the
/// screen, the lines above the first row are left out and the rest starts in
/// the first row.
pub open spec fn printed(g: Grid, text: Seq<char>, x: int, y: int, fg: Color, bg: Color) -> Grid {
    if x < g.width && y < g.height {
        let rest = if y < 0 {
            skip_lines(text, -y)
        } else {
            text
        };
        let start = Cursor { row: max(y, 0), col: max(x, 0), skip: max(-x, 0), done: false };
        typed(g, rest, rest.len(), start, x, fg, bg)
    } else {
        g
    }
}

/// The characters of a string.
pub(crate) fn chars_of(s: &str) -> (v: Vec<char>)
    ensures
        v@ == s@,
{
    let mut v: Vec<char> = Vec::new();
    for c in it: s.chars()
        invariant
            it.seq() == s@,
            v@.len() == it.index(),
            forall|i: int| 0 <= i < it.index() ==> #[trigger] v@[i] == s@[i],
    {
        v.push(c);
    }
    assert(v@ =~= s@);
    v
}

impl Screen {
    /// Prints `string` at `(x, y)` in the terminal's default colours. See
    /// [`Screen::print_fbg`].
    pub fn print(&mut self, x: i32, y: i32, string: &str)
        ensures
            final(self)@ == printed(
                old(self)@,
                string@,
                x as int,
                y as int,
                Color::Reset,
                Color::Reset,
            ),
            final(self).cached_empty() == old(self).cached_empty(),
    {
        self.print_fbg(x, y, string, Color::Reset, Color::Reset)
    }

    /// Prints `string` at `(x, y)` in the colours `fg` on `bg`. A new line
    /// continues one row down in column `x`; a carriage return goes back to
    /// column `x`; a tab is one space. What does not fit on a row is cut off at
    /// the right border. With `x` negative the first `-x` characters of each line
    /// are left out; with `y` negative the first `-y` lines are.
    pub fn print_fbg(&mut self, x: i32, y: i32, string: &str, fg: Color, bg: Color)
        ensures
            final(self)@ == printed(old(self)@, string@, x as int, y as int, fg, bg),
            final(self).cached_empty() == old(self).cached_empty(),
    {
        let width = self.get_width() as i64;
        let height = self.get_height() as i64;
        let x = x as i64;
        let y = y as i64;
        if !(x < width && y < height) {
            return ;
        }
        let chars = chars_of(string);
        let len = chars.len();
        // The lines above the screen are left out.
        let mut from: usize = 0;
        if y < 0 {
            let mut lines: i64 = -y;
            proof {
                assert(chars@.subrange(0, len as int) =~= chars@);
            }
            while lines > 0 && from < len
                invariant
                    0 <= lines,
                    from <= len,
                    len == chars@.len(),
                    skip_lines(chars@, -y as int) == skip_lines(
                        chars@.subrange(from as int, len as int),
                        lines as int,
                    ),
                decreases len - from,
            {
                proof {
                    let here = chars@.subrange(from as int, len as int);
                    assert(here.drop_first() =~= chars@.subrange(from + 1, len as int));
                }
                if chars[from] == '\n' {
                    lines -= 1;
                }
                from += 1;
            }
        } else {
            proof {
                assert(chars@.subrange(0, len as int) =~= chars@);
            }
        }
        let ghost rest = chars@.subrange(from as int, len as int);
        let start_col: i64 = if x < 0 {
            0
        } else {
            x
        };
        let left_out: i64 = if x < 0 {
            -x
        } else {
            0
        };
        let ghost start = Cursor {
            row: max(y as int, 0),
            col: start_col as int,
            skip: left_out as int,
            done: false,
        };
        let mut row: i64 = if y < 0 {
            0
        } else {
            y
        };
        let mut col: i64 = start_col;
        let mut skip: i64 = left_out;
        let mut done = false;
        let mut i: usize = from;
        while i < len
            invariant
                from <= i <= len,
                len == chars@.len(),
                rest == chars@.subrange(from as int, len as int),
                width == old(self)@.width,
                height == old(self)@.height,
                -0x8000_0000 <= x < width,
                start_col == max(x as int, 0),
                left_out == max(-x as int, 0),
                0 <= row,
                !done ==> row < height || (height == 0 && row == 0),
                row <= height + 1,
                0 <= col <= width || (col == 0 && width == 0),
                0 <= skip <= left_out,
                self@.width == old(self)@.width,
                self@.height == old(self)@.height,
                self.cached_empty() == old(self).cached_empty(),
                (Cursor { row: row as int, col: col as int, skip: skip as int, done })
                    == cursor_after(
                    rest,
                    (i - from) as nat,
                    start,
                    x as int,
                    width as int,
                    height as int,
                ),
                self@ == typed(old(self)@, rest, (i - from) as nat, start, x as int, fg, bg),
            decreases len - i,
        {
            let c = chars[i];
            proof {
                assert(rest[i - from] == c);
            }
            if done {
            } else if c == '\n' {
                row += 1;
                skip = left_out;
                if row >= height {
                    done = true;
                } else {
                    col = start_col;
                }
            } else if c == '\r' {
                col = start_col;
            } else if skip > 0 {
                skip -= 1;
            } else if col < width {
                let chr = if c == '\t' {
                    ' '
                } else {
                    c
                };
                self.put(col, row, pxl_fbg(chr, fg, bg));
                col += 1;
            }
            i += 1;
        }
        proof {
            assert(rest.len() == len - from);
        }
    }
}

} // verus!
