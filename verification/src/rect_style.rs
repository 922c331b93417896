//! Border styles for rectangles.

use vstd::prelude::*;
use crate::color::Color;
use crate::pixel::{pxl, Pixel};

verus! {

/// The six pixels a bordered rectangle is drawn with: one for each corner, one
/// for the horizontal edges and one for the vertical edges.
#[derive(Clone, Copy, Debug, PartialEq, Eq, Structural)]
pub struct BorderStyle {
    pub corner_top_left: Pixel,
    pub corner_top_right: Pixel,
    pub corner_bottom_left: Pixel,
    pub corner_bottom_right: Pixel,
    pub top_bottom: Pixel,
    pub left_right: Pixel,
}

/// The pixel that shows `c` in the terminal's default colours.
pub open spec fn plain(c: char) -> Pixel {
    Pixel { bg: Color::Reset, fg: Color::Reset, chr: c }
}

/// The style that shows the six given characters in the terminal's default
/// colours.
pub open spec fn plain_style(
    top_left: char,
    top_right: char,
    bottom_left: char,
    bottom_right: char,
    horizontal: char,
    vertical: char,
) -> BorderStyle {
    BorderStyle {
        corner_top_left: plain(top_left),
        corner_top_right: plain(top_right),
        corner_bottom_left: plain(bottom_left),
        corner_bottom_right: plain(bottom_right),
        top_bottom: plain(horizontal),
        left_right: plain(vertical),
    }
}

impl BorderStyle {
    /// Simple border, in ASCII: `+`, `-` and `|`.
    pub fn new_simple() -> (style: Self)
        ensures
            style == plain_style('+', '+', '+', '+', '-', '|'),
    {
        Self {
            corner_top_right: pxl('+'),
            corner_top_left: pxl('+'),
            corner_bottom_left: pxl('+'),
            corner_bottom_right: pxl('+'),
            top_bottom: pxl('-'),
            left_right: pxl('|'),
        }
    }

    /// Solid border: the full block for every part.
    pub fn new_solid() -> (style: Self)
        ensures
            style == plain_style('█', '█', '█', '█', '█', '█'),
    {
        Self {
            corner_top_right: pxl('█'),
            corner_top_left: pxl('█'),
            corner_bottom_left: pxl('█'),
            corner_bottom_right: pxl('█'),
            top_bottom: pxl('█'),
            left_right: pxl('█'),
        }
    }

    /// Light border, from the light box-drawing characters.
    pub fn new_light() -> (style: Self)
        ensures
            style == plain_style('┌', '┐', '└', '┘', '─', '│'),
    {
        Self {
            corner_top_right: pxl('┐'),
            corner_top_left: pxl('┌'),
            corner_bottom_left: pxl('└'),
            corner_bottom_right: pxl('┘'),
            top_bottom: pxl('─'),
            left_right: pxl('│'),
        }
    }

    /// Heavy border, from the heavy box-drawing characters.
    pub fn new_heavy() -> (style: Self)
        ensures
            style == plain_style('┏', '┓', '┗', '┛', '━', '┃'),
    {
        Self {
            corner_top_right: pxl('┓'),
            corner_top_left: pxl('┏'),
            corner_bottom_left: pxl('┗'),
            corner_bottom_right: pxl('┛'),
            top_bottom: pxl('━'),
            left_right: pxl('┃'),
        }
    }

    /// Double border, from the double box-drawing characters.
    pub fn new_double() -> (style: Self)
        ensures
            style == plain_style('╔', '╗', '╚', '╝', '═', '║'),
    {
        Self {
            corner_top_right: pxl('╗'),
            corner_top_left: pxl('╔'),
            corner_bottom_left: pxl('╚'),
            corner_bottom_right: pxl('╝'),
            top_bottom: pxl('═'),
            left_right: pxl('║'),
        }
    }

    /// A border of the six given pixels.
    pub fn new(
        corner_top_left: Pixel,
        corner_top_right: Pixel,
        corner_bottom_left: Pixel,
        corner_bottom_right: Pixel,
        top_bottom: Pixel,
        left_right: Pixel,
    ) -> (style: Self)
        ensures
            style == (BorderStyle {
                corner_top_left,
                corner_top_right,
                corner_bottom_left,
                corner_bottom_right,
                top_bottom,
                left_right,
            }),
    {
        Self {
            corner_top_right,
            corner_top_left,
            corner_bottom_left,
            corner_bottom_right,
            top_bottom,
            left_right,
        }
    }

    /// Gives every part of the border the colours `fg` on `bg`, keeping the
    /// characters.
    pub fn with_colors(&mut self, fg: Color, bg: Color)
        ensures
            *final(self) == old(self).recolored(fg, bg),
    {
        self.corner_top_right.fg = fg;
        self.corner_top_right.bg = bg;
        self.corner_top_left.fg = fg;
        self.corner_top_left.bg = bg;
        self.corner_bottom_left.fg = fg;
        self.corner_bottom_left.bg = bg;
        self.corner_bottom_right.fg = fg;
        self.corner_bottom_right.bg = bg;
        self.top_bottom.fg = fg;
        self.top_bottom.bg = bg;
        self.left_right.fg = fg;
        self.left_right.bg = bg;
    }

    /// This style with every part in the colours `fg` on `bg`.
    pub open spec fn recolored(self, fg: Color, bg: Color) -> BorderStyle {
        BorderStyle {
            corner_top_left: Pixel { bg, fg, chr: self.corner_top_left.chr },
            corner_top_right: Pixel { bg, fg, chr: self.corner_top_right.chr },
            corner_bottom_left: Pixel { bg, fg, chr: self.corner_bottom_left.chr },
            corner_bottom_right: Pixel { bg, fg, chr: self.corner_bottom_right.chr },
            top_bottom: Pixel { bg, fg, chr: self.top_bottom.chr },
            left_right: Pixel { bg, fg, chr: self.left_right.chr },
        }
    }
}

} // verus!
