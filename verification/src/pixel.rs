//! Character and colour of one terminal cell.

use vstd::prelude::*;
use crate::color::Color;

verus! {

/// One cell of a screen: a character with its foreground and background colour.
#[derive(Clone, Copy, Debug, PartialEq, Eq, Structural)]
pub struct Pixel {
    pub bg: Color,
    pub fg: Color,
    pub chr: char,
}

impl Pixel {
    /// The foreground and background colour, in that order.
    pub fn get_colors(&self) -> (colors: (Color, Color))
        ensures
            colors == (self.fg, self.bg),
    {
        (self.fg, self.bg)
    }
}

/// The character every freshly cleared cell holds.
pub open spec fn blank() -> Pixel {
    Pixel { bg: Color::Reset, fg: Color::Reset, chr: ' ' }
}

/// A pixel with the given character, foreground and background.
pub fn pxl_fbg(value: char, fg: Color, bg: Color) -> (p: Pixel)
    ensures
        p == (Pixel { bg, fg, chr: value }),
{
    Pixel { bg, fg, chr: value }
}

/// A pixel with the given character and foreground on the terminal's default
/// background.
pub fn pxl_fg(value: char, fg: Color) -> (p: Pixel)
    ensures
        p == (Pixel { bg: Color::Reset, fg, chr: value }),
{
    Pixel { fg, bg: Color::Reset, chr: value }
}

/// A pixel with the given character and background in the terminal's default
/// foreground.
pub fn pxl_bg(value: char, bg: Color) -> (p: Pixel)
    ensures
        p == (Pixel { bg, fg: Color::Reset, chr: value }),
{
    Pixel { fg: Color::Reset, bg, chr: value }
}

/// A pixel with the given character in the terminal's default colours.
pub fn pxl(value: char) -> (p: Pixel)
    ensures
        p == (Pixel { bg: Color::Reset, fg: Color::Reset, chr: value }),
{
    Pixel { fg: Color::Reset, bg: Color::Reset, chr: value }
}

} // verus!
