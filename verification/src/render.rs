//! From screens to terminal commands: the plan that writes a whole screen, and
//! the plan that writes only what differs from the frame drawn before.

use vstd::prelude::*;
use crate::color::Color;
use crate::grid::Grid;
use crate::pixel::Pixel;
use crate::screen::Screen;

verus! {

/// One instruction to the terminal.
#[derive(Clone, Copy, Debug, PartialEq, Eq, Structural)]
pub enum TermCommand {
    /// Put the cursor at this column and row.
    MoveTo { column: u16, row: u16 },
    /// Set the foreground and background colour, then write the character.
    Styled { fg: Color, bg: Color, chr: char },
    /// Write the character in the colours set last.
    Plain { chr: char },
    /// Go to the start of the next row.
    NewLine,
}

/// The number of columns a character takes on a terminal, where it takes any.
pub uninterp spec fn char_width(c: char) -> Option<usize>;

/// `UnicodeWidthChar::width` of the crate unicode-width: the number of columns
/// the character takes, or nothing for a control character. The result depends
/// on the character alone; the contract names it and says no more.
#[verifier::external_body]
fn display_width(c: char) -> (w: Option<usize>)
    ensures
        w == char_width(c),
{
    unicode_width::UnicodeWidthChar::width(c)
}

/// Whether a character takes more than one column, so that the terminal steps
/// over the cell that follows it.
pub open spec fn is_wide(c: char) -> bool {
    match char_width(c) {
        Some(w) => w > 1,
        None => false,
    }
}

/// What a plan remembers from cell to cell.
pub struct Pen {
    /// Nothing was written yet.
    pub first: bool,
    /// The colours set last.
    pub colors: (Color, Color),
    /// Cells were passed over since the last write, so the cursor is not where
    /// the next write belongs.
    pub moving: bool,
    /// The cell before was wide: this cell is stepped over.
    pub skip: bool,
}

/// The pen at the start of a frame.
pub open spec fn start_pen() -> Pen {
    Pen { first: true, colors: (Color::Reset, Color::Reset), moving: false, skip: false }
}

/// The pen after the cell `(x, y)`, which holds `pixel` and must be written if
/// `stale`.
pub open spec fn cell_pen(pen: Pen, pixel: Pixel, stale: bool) -> Pen {
    if pen.skip {
        Pen { skip: false, ..pen }
    } else if stale {
        Pen { first: false, colors: (pixel.fg, pixel.bg), moving: false, skip: is_wide(pixel.chr) }
    } else {
        Pen { moving: true, skip: is_wide(pixel.chr), ..pen }
    }
}

/// The commands for the cell `(x, y)`, which holds `pixel` and must be written
/// if `stale`: nothing for a cell that is stepped over or up to date; else a move
/// of the cursor where cells were passed over, and the character, with its
/// colours where they differ from those set last.
pub open spec fn cell_commands(pen: Pen, x: int, y: int, pixel: Pixel, stale: bool) -> Seq<
    TermCommand,
> {
    if pen.skip || !stale {
        Seq::empty()
    } else {
        let go = if pen.moving {
            seq![TermCommand::MoveTo { column: x as u16, row: y as u16 }]
        } else {
            Seq::empty()
        };
        if pen.colors != (pixel.fg, pixel.bg) || pen.first {
            go.push(TermCommand::Styled { fg: pixel.fg, bg: pixel.bg, chr: pixel.chr })
        } else {
            go.push(TermCommand::Plain { chr: pixel.chr })
        }
    }
}

/// Whether the cell `(x, y)` of `current` must be written: always where
/// everything is redrawn, else where it differs from the frame drawn last.
pub open spec fn is_stale(current: Grid, last: Grid, redraw: bool, x: int, y: int) -> bool {
    redraw || current.at(x, y) != last.at(x, y)
}

/// The pen after the first `k` cells of row `y`, entered with `pen`.
pub open spec fn row_pen(current: Grid, last: Grid, redraw: bool, y: int, k: nat, pen: Pen) -> Pen
    decreases k,
{
    if k == 0 {
        pen
    } else {
        cell_pen(
            row_pen(current, last, redraw, y, (k - 1) as nat, pen),
            current.at(k - 1, y),
            is_stale(current, last, redraw, k - 1, y),
        )
    }
}

/// The commands for the first `k` cells of row `y`, entered with `pen`.
pub open spec fn row_commands(
    current: Grid,
    last: Grid,
    redraw: bool,
    y: int,
    k: nat,
    pen: Pen,
) -> Seq<TermCommand>
    decreases k,
{
    if k == 0 {
        Seq::empty()
    } else {
        row_commands(current, last, redraw, y, (k - 1) as nat, pen) + cell_commands(
            row_pen(current, last, redraw, y, (k - 1) as nat, pen),
            k - 1,
            y,
            current.at(k - 1, y),
            is_stale(current, last, redraw, k - 1, y),
        )
    }
}

/// The pen after the first `j` rows. At the end of a row the cursor is not where
/// the next row starts, so the next cell that is written is written after a move
/// of the cursor: the end of a row costs no command of its own.
pub open spec fn frame_pen(current: Grid, last: Grid, redraw: bool, j: nat) -> Pen
    decreases j,
{
    if j == 0 {
        start_pen()
    } else {
        Pen {
            moving: true,
            ..row_pen(
                current,
                last,
                redraw,
                j - 1,
                current.width,
                frame_pen(current, last, redraw, (j - 1) as nat),
            )
        }
    }
}

/// What ends row `y` of a screen that is written as a whole: a new line, but
/// after the last row.
pub open spec fn row_end(current: Grid, y: int) -> Seq<TermCommand> {
    if y < current.height - 1 {
        seq![TermCommand::NewLine]
    } else {
        Seq::empty()
    }
}

/// The commands for the first `j` rows: the cursor goes to the top left corner,
/// then the commands of each row follow.
pub open spec fn frame_commands(current: Grid, last: Grid, redraw: bool, j: nat) -> Seq<TermCommand>
    decreases j,
{
    if j == 0 {
        seq![TermCommand::MoveTo { column: 0, row: 0 }]
    } else {
        frame_commands(current, last, redraw, (j - 1) as nat) + row_commands(
            current,
            last,
            redraw,
            j - 1,
            current.width,
            frame_pen(current, last, redraw, (j - 1) as nat),
        )
    }
}

/// The commands that bring a terminal which shows `last` to show `current`. With
/// `redraw` every cell is written, whatever `last` holds.
pub open spec fn draw_plan(current: Grid, last: Grid, redraw: bool) -> Seq<TermCommand> {
    frame_commands(current, last, redraw, current.height)
}

/// Plans the commands that bring a terminal which shows `last` to show
/// `current`.
pub fn plan_frame(current: &Screen, last: &Screen, redraw: bool) -> (commands: Vec<TermCommand>)
    requires
        current@.width == last@.width,
        current@.height == last@.height,
    ensures
        commands@ == draw_plan(current@, last@, redraw),
{
    let width = current.get_width() as i64;
    let height = current.get_height() as i64;
    let mut commands: Vec<TermCommand> = Vec::new();
    commands.push(TermCommand::MoveTo { column: 0, row: 0 });
    let mut first = true;
    let mut colors: (Color, Color) = (Color::Reset, Color::Reset);
    let mut moving = false;
    let mut skip_next = false;
    let mut y: i64 = 0;
    while y < height
        invariant
            0 <= y <= height,
            width == current@.width,
            height == current@.height,
            current@.width == last@.width,
            current@.height == last@.height,
            commands@ == frame_commands(current@, last@, redraw, y as nat),
            (Pen { first, colors, moving, skip: skip_next }) == frame_pen(
                current@,
                last@,
                redraw,
                y as nat,
            ),
        decreases height - y,
    {
        let ghost row_start = commands@;
        let ghost pen0 = Pen { first, colors, moving, skip: skip_next };
        let mut x: i64 = 0;
        while x < width
            invariant
                0 <= x <= width,
                0 <= y < height,
                width == current@.width,
                height == current@.height,
                current@.width == last@.width,
                current@.height == last@.height,
                commands@ == row_start + row_commands(current@, last@, redraw, y as int, x as nat, pen0),
                (Pen { first, colors, moving, skip: skip_next }) == row_pen(
                    current@,
                    last@,
                    redraw,
                    y as int,
                    x as nat,
                    pen0,
                ),
            decreases width - x,
        {
            let ghost before = commands@;
            let ghost pen = Pen { first, colors, moving, skip: skip_next };
            let pixel = current.cell(x, y);
            let shown = last.cell(x, y);
            let ghost stale = is_stale(current@, last@, redraw, x as int, y as int);
            if skip_next {
                skip_next = false;
            } else {
                if let Some(char_width) = display_width(pixel.chr) {
                    if char_width > 1 {
                        skip_next = true;
                    }
                }
                if redraw || pixel != shown {
                    if moving {
                        commands.push(
                            TermCommand::MoveTo {
                                column: #[verifier::truncate] (x as u16),
                                row: #[verifier::truncate] (y as u16),
                            },
                        );
                        moving = false;
                    }
                    if colors.0 != pixel.fg || colors.1 != pixel.bg || first {
                        colors = pixel.get_colors();
                        commands.push(
                            TermCommand::Styled { fg: pixel.fg, bg: pixel.bg, chr: pixel.chr },
                        );
                        first = false;
                    } else {
                        commands.push(TermCommand::Plain { chr: pixel.chr });
                    }
                } else {
                    moving = true;
                }
            }
            proof {
                assert(commands@ =~= before + cell_commands(pen, x as int, y as int, pixel, stale));
                assert(row_start + row_commands(
                    current@,
                    last@,
                    redraw,
                    y as int,
                    (x + 1) as nat,
                    pen0,
                ) =~= before + cell_commands(pen, x as int, y as int, pixel, stale));
            }
            x += 1;
        }
        moving = true;
        proof {
            assert(commands@ =~= frame_commands(current@, last@, redraw, (y + 1) as nat));
        }
        y += 1;
    }
    commands
}

/// The plan for the first `k` cells of row `y` of a screen that is written as a
/// whole, entered with `skip`: whether the next cell is stepped over, and the
/// commands. Each cell that is not stepped over is written with its colours; a
/// new line follows the last cell of a row, but after the last row. There is no
/// plan where a cell that is not stepped over holds a character without a
/// width.
pub open spec fn whole_row(g: Grid, y: int, k: nat, skip: bool) -> Option<(bool, Seq<TermCommand>)>
    decreases k,
{
    if k == 0 {
        Some((skip, Seq::empty()))
    } else {
        match whole_row(g, y, (k - 1) as nat, skip) {
            None => None,
            Some((stepped, commands)) => {
                let pixel = g.at(k - 1, y);
                if stepped {
                    Some((false, commands))
                } else {
                    match char_width(pixel.chr) {
                        None => None,
                        Some(w) => Some(
                            (
                                w > 1,
                                commands.push(
                                    TermCommand::Styled {
                                        fg: pixel.fg,
                                        bg: pixel.bg,
                                        chr: pixel.chr,
                                    },
                                ) + (if k == g.width {
                                    row_end(g, y)
                                } else {
                                    Seq::empty()
                                }),
                            ),
                        ),
                    }
                }
            },
        }
    }
}

/// The plan for the first `j` rows of a screen that is written as a whole.
pub open spec fn whole_rows(g: Grid, j: nat) -> Option<(bool, Seq<TermCommand>)>
    decreases j,
{
    if j == 0 {
        Some((false, Seq::empty()))
    } else {
        match whole_rows(g, (j - 1) as nat) {
            None => None,
            Some((skip, commands)) => match whole_row(g, j - 1, g.width, skip) {
                None => None,
                Some((stepped, row)) => Some((stepped, commands + row)),
            },
        }
    }
}

/// The commands that write a whole screen, where there are any.
pub open spec fn whole_plan(g: Grid) -> Option<Seq<TermCommand>> {
    match whole_rows(g, g.height) {
        None => None,
        Some((_, commands)) => Some(commands),
    }
}

impl Screen {
    /// The commands that write this screen to a terminal, cell by cell with the
    /// colours of each cell, or nothing where a cell that has to be written holds
    /// a character without a width, such as a control character.
    pub fn try_draw(&self) -> (commands: Option<Vec<TermCommand>>)
        ensures
            match commands {
                Some(c) => whole_plan(self@) == Some(c@),
                None => whole_plan(self@) is None,
            },
    {
        let width = self.get_width() as i64;
        let height = self.get_height() as i64;
        let mut commands: Vec<TermCommand> = Vec::new();
        let mut skip_next = false;
        let mut y: i64 = 0;
        while y < height
            invariant
                0 <= y <= height,
                width == self@.width,
                height == self@.height,
                whole_rows(self@, y as nat) == Some((skip_next, commands@)),
            decreases height - y,
        {
            let ghost row_start = commands@;
            let ghost skip0 = skip_next;
            let ghost row = Seq::<TermCommand>::empty();
            let mut x: i64 = 0;
            proof {
                assert(commands@ =~= row_start + Seq::<TermCommand>::empty());
            }
            while x < width
                invariant
                    0 <= x <= width,
                    0 <= y < height,
                    width == self@.width,
                    height == self@.height,
                    whole_rows(self@, y as nat) == Some((skip0, row_start)),
                    whole_row(self@, y as int, x as nat, skip0) matches Some(
                        (stepped, so_far),
                    ) && stepped == skip_next && commands@ == row_start + so_far,
                decreases width - x,
            {
                let ghost so_far = match whole_row(self@, y as int, x as nat, skip0) {
                    Some((_, commands)) => commands,
                    None => Seq::empty(),
                };
                let pixel = self.cell(x, y);
                if skip_next {
                    skip_next = false;
                } else {
                    match display_width(pixel.chr) {
                        None => {
                            proof {
                                assert(whole_row(self@, y as int, (x + 1) as nat, skip0) is None);
                                lemma_no_row_no_plan(self@, y as int, (x + 1) as nat, skip0);
                                lemma_no_rows_no_plan(self@, (y + 1) as nat);
                            }
                            return None;
                        },
                        Some(w) => {
                            if w > 1 {
                                skip_next = true;
                            }
                            commands.push(
                                TermCommand::Styled { fg: pixel.fg, bg: pixel.bg, chr: pixel.chr },
                            );
                            if x == width - 1 && y < height - 1 {
                                commands.push(TermCommand::NewLine);
                            }
                            proof {
                                let added = so_far.push(
                                    TermCommand::Styled {
                                        fg: pixel.fg,
                                        bg: pixel.bg,
                                        chr: pixel.chr,
                                    },
                                ) + (if x + 1 == width {
                                    row_end(self@, y as int)
                                } else {
                                    Seq::empty()
                                });
                                assert(commands@ =~= row_start + added);
                            }
                        },
                    }
                }
                x += 1;
            }
            proof {
                let row = match whole_row(self@, y as int, width as nat, skip0) {
                    Some((_, commands)) => commands,
                    None => Seq::empty(),
                };
                assert(whole_rows(self@, (y + 1) as nat) == Some((skip_next, row_start + row)));
            }
            y += 1;
        }
        Some(commands)
    }

    /// The commands that write this screen to a terminal, cell by cell with the
    /// colours of each cell. Every cell that has to be written holds a character
    /// with a width: a caller that does not know this of its screen calls
    /// [`Screen::try_draw`], which finds out while it plans and returns the same
    /// plan where there is one.
    pub fn draw(&self) -> (commands: Vec<TermCommand>)
        requires
            whole_plan(self@) is Some,
        ensures
            whole_plan(self@) == Some(commands@),
    {
        match self.try_draw() {
            Some(commands) => commands,
            None => Vec::new(),
        }
    }
}

/// A row without a plan stays without one.
proof fn lemma_no_row_no_plan(g: Grid, y: int, from: nat, skip: bool)
    requires
        whole_row(g, y, from, skip) is None,
        from <= g.width,
    ensures
        whole_row(g, y, g.width, skip) is None,
    decreases g.width - from,
{
    lemma_no_row_later(g, y, from, g.width, skip);
}

/// A row without a plan for its first cells has none for more of them.
proof fn lemma_no_row_later(g: Grid, y: int, from: nat, to: nat, skip: bool)
    requires
        whole_row(g, y, from, skip) is None,
        from <= to,
    ensures
        whole_row(g, y, to, skip) is None,
    decreases to,
{
    if from < to {
        lemma_no_row_later(g, y, from, (to - 1) as nat, skip);
    }
}

/// A screen without a plan for its first rows has none at all.
proof fn lemma_no_rows_no_plan(g: Grid, from: nat)
    requires
        from <= g.height,
        from > 0,
        whole_rows(g, (from - 1) as nat) matches Some((skip, _)) && whole_row(
            g,
            from - 1,
            g.width,
            skip,
        ) is None,
    ensures
        whole_plan(g) is None,
{
    assert(whole_rows(g, from) is None);
    lemma_no_rows_later(g, from, g.height);
}

/// A screen without a plan for its first rows has none for more of them.
proof fn lemma_no_rows_later(g: Grid, from: nat, to: nat)
    requires
        whole_rows(g, from) is None,
        from <= to,
    ensures
        whole_rows(g, to) is None,
    decreases to,
{
    if from < to {
        lemma_no_rows_later(g, from, (to - 1) as nat);
    }
}

/// Where nothing differs from the frame drawn last, the plan is the move of the
/// cursor to the top left corner and nothing else: no character is written, no
/// colour set, and the cursor is not moved again.
pub proof fn lemma_unchanged_frame_is_cursor_reset(g: Grid)
    ensures
        draw_plan(g, g, false) == seq![TermCommand::MoveTo { column: 0, row: 0 }],
{
    lemma_unchanged_rows(g, g.height);
}

/// A draw that follows a draw with nothing changed in between sends the move of
/// the cursor to the top left corner and nothing else, unless the screen holds
/// NUL in every cell: such a screen is taken for a frame that was never drawn,
/// and written in full.
pub proof fn lemma_second_draw_is_cursor_reset(g: Grid)
    requires
        !g.all_chr(crate::screen::NUL),
    ensures
        draw_plan(g, g, g.all_chr(crate::screen::NUL)) == seq![
            TermCommand::MoveTo { column: 0, row: 0 },
        ],
{
    lemma_unchanged_frame_is_cursor_reset(g);
}

/// The first `j` rows of an unchanged frame give no command beyond the first.
proof fn lemma_unchanged_rows(g: Grid, j: nat)
    ensures
        frame_commands(g, g, false, j) == seq![TermCommand::MoveTo { column: 0, row: 0 }],
    decreases j,
{
    if j > 0 {
        lemma_unchanged_rows(g, (j - 1) as nat);
        let pen = frame_pen(g, g, false, (j - 1) as nat);
        lemma_unchanged_row(g, j - 1, g.width, pen);
        assert(frame_commands(g, g, false, j) =~= frame_commands(g, g, false, (j - 1) as nat));
    }
}

/// A row of an unchanged frame gives no command at all.
proof fn lemma_unchanged_row(g: Grid, y: int, k: nat, pen: Pen)
    ensures
        row_commands(g, g, false, y, k, pen).len() == 0,
    decreases k,
{
    if k > 0 {
        lemma_unchanged_row(g, y, (k - 1) as nat, pen);
    }
}

} // verus!
