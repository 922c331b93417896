//! Terminal colours.

use vstd::prelude::*;

verus! {

/// A terminal colour: the default of the terminal (`Reset`), one of the sixteen
/// named colours, a 24-bit colour or an indexed ANSI colour.
#[derive(Clone, Copy, Debug, PartialEq, Eq, Structural)]
pub enum Color {
    Reset,
    Black,
    DarkGrey,
    Red,
    DarkRed,
    Green,
    DarkGreen,
    Yellow,
    DarkYellow,
    Blue,
    DarkBlue,
    Magenta,
    DarkMagenta,
    Cyan,
    DarkCyan,
    White,
    Grey,
    Rgb { r: u8, g: u8, b: u8 },
    AnsiValue(u8),
}

} // verus!
