//! Keyboard and mouse events, and the events an engine hands to its caller.

use vstd::prelude::*;
use vstd::std_specs::cmp::PartialEqSpecImpl;

verus! {

/// A media key.
#[derive(Clone, Copy, Debug, PartialEq, Eq, Structural)]
pub enum MediaKeyCode {
    Play,
    Pause,
    PlayPause,
    Reverse,
    Stop,
    FastForward,
    Rewind,
    TrackNext,
    TrackPrevious,
    Record,
    LowerVolume,
    RaiseVolume,
    MuteVolume,
}

/// A modifier key pressed on its own.
#[derive(Clone, Copy, Debug, PartialEq, Eq, Structural)]
pub enum ModifierKeyCode {
    LeftShift,
    LeftControl,
    LeftAlt,
    LeftSuper,
    LeftHyper,
    LeftMeta,
    RightShift,
    RightControl,
    RightAlt,
    RightSuper,
    RightHyper,
    RightMeta,
    IsoLevel3Shift,
    IsoLevel5Shift,
}

/// A key of the keyboard.
#[derive(Clone, Copy, Debug, PartialEq, Eq, Structural)]
pub enum KeyCode {
    Backspace,
    Enter,
    Left,
    Right,
    Up,
    Down,
    Home,
    End,
    PageUp,
    PageDown,
    Tab,
    BackTab,
    Delete,
    Insert,
    F(u8),
    Char(char),
    Null,
    Esc,
    CapsLock,
    ScrollLock,
    NumLock,
    PrintScreen,
    Pause,
    Menu,
    KeypadBegin,
    Media(MediaKeyCode),
    Modifier(ModifierKeyCode),
}

/// The modifier keys held with a key or a mouse button, one bit each.
#[derive(Clone, Copy, Debug, PartialEq, Eq, Structural)]
pub struct KeyModifiers {
    pub bits: u8,
}

/// The bit of the shift key.
pub const SHIFT: u8 = 0b0000_0001;

/// The bit of the control key.
pub const CONTROL: u8 = 0b0000_0010;

/// The bit of the alt key.
pub const ALT: u8 = 0b0000_0100;

/// The bit of the super key.
pub const SUPER: u8 = 0b0000_1000;

/// The bit of the hyper key.
pub const HYPER: u8 = 0b0001_0000;

/// The bit of the meta key.
pub const META: u8 = 0b0010_0000;

impl KeyModifiers {
    /// No modifier.
    pub open spec fn nothing() -> KeyModifiers {
        KeyModifiers { bits: 0 }
    }

    /// Whether the shift key is among the modifiers.
    pub open spec fn shifted(self) -> bool {
        self.bits & SHIFT != 0
    }

    /// These modifiers and the shift key.
    pub open spec fn and_shift(self) -> KeyModifiers {
        KeyModifiers { bits: self.bits | SHIFT }
    }

    /// No modifier.
    pub fn none() -> (m: KeyModifiers)
        ensures
            m == KeyModifiers::nothing(),
    {
        KeyModifiers { bits: 0 }
    }

    /// The modifiers with the given bits.
    pub fn from_bits(bits: u8) -> (m: KeyModifiers)
        ensures
            m.bits == bits,
    {
        KeyModifiers { bits }
    }

    /// Whether the shift key is among the modifiers.
    pub fn has_shift(&self) -> (held: bool)
        ensures
            held == self.shifted(),
    {
        self.bits & SHIFT != 0
    }

    /// These modifiers and the shift key.
    pub fn with_shift(&self) -> (m: KeyModifiers)
        ensures
            m == self.and_shift(),
    {
        KeyModifiers { bits: self.bits | SHIFT }
    }
}

/// What happened to a key.
#[derive(Clone, Copy, Debug, PartialEq, Eq, Structural)]
pub enum KeyEventKind {
    Press,
    Repeat,
    Release,
}

/// A key with its modifiers, what happened to it, and the state of the keyboard
/// as a set of bits.
///
/// Two key events are equal when they are the same after the case of a letter
/// and the shift key have been brought in line: an upper-case letter counts as
/// typed with shift, and a letter typed with shift counts as upper case.
#[derive(Clone, Copy, Debug)]
pub struct KeyEvent {
    pub code: KeyCode,
    pub modifiers: KeyModifiers,
    pub kind: KeyEventKind,
    pub state: u8,
}

/// Whether `c` is one of `A` to `Z`.
pub open spec fn ascii_upper(c: char) -> bool {
    'A' <= c <= 'Z'
}

/// Whether `c` is one of `a` to `z`.
pub open spec fn ascii_lower(c: char) -> bool {
    'a' <= c <= 'z'
}

/// The upper-case letter of a lower-case ASCII letter; any other character
/// itself.
pub open spec fn to_ascii_upper(c: char) -> char {
    if ascii_lower(c) {
        ((c as u8) - 32) as char
    } else {
        c
    }
}

/// The upper-case letter of a lower-case ASCII letter; any other character
/// itself.
pub fn ascii_uppercase(c: char) -> (u: char)
    ensures
        u == to_ascii_upper(c),
{
    if c >= 'a' && c <= 'z' {
        ((c as u8) - 32) as char
    } else {
        c
    }
}

impl KeyEvent {
    /// This event with letter case and shift brought in line.
    pub open spec fn normalized(self) -> KeyEvent {
        match self.code {
            KeyCode::Char(c) => if ascii_upper(c) {
                KeyEvent { modifiers: self.modifiers.and_shift(), ..self }
            } else if self.modifiers.shifted() {
                KeyEvent { code: KeyCode::Char(to_ascii_upper(c)), ..self }
            } else {
                self
            },
            _ => self,
        }
    }

    /// Whether two events are the same key event.
    pub open spec fn same_key(self, other: KeyEvent) -> bool {
        self.normalized() == other.normalized()
    }

    /// The press of `code` with `modifiers`.
    pub fn new(code: KeyCode, modifiers: KeyModifiers) -> (event: KeyEvent)
        ensures
            event == (KeyEvent { code, modifiers, kind: KeyEventKind::Press, state: 0 }),
    {
        KeyEvent { code, modifiers, kind: KeyEventKind::Press, state: 0 }
    }

    /// The event of the given kind on `code` with `modifiers`.
    pub fn new_with_kind(code: KeyCode, modifiers: KeyModifiers, kind: KeyEventKind) -> (event:
        KeyEvent)
        ensures
            event == (KeyEvent { code, modifiers, kind, state: 0 }),
    {
        KeyEvent { code, modifiers, kind, state: 0 }
    }

    /// This event with letter case and shift brought in line.
    pub fn normalize_case(self) -> (event: KeyEvent)
        ensures
            event == self.normalized(),
    {
        match self.code {
            KeyCode::Char(c) => {
                if c >= 'A' && c <= 'Z' {
                    KeyEvent {
                        code: self.code,
                        modifiers: self.modifiers.with_shift(),
                        kind: self.kind,
                        state: self.state,
                    }
                } else if self.modifiers.has_shift() {
                    KeyEvent {
                        code: KeyCode::Char(ascii_uppercase(c)),
                        modifiers: self.modifiers,
                        kind: self.kind,
                        state: self.state,
                    }
                } else {
                    self
                }
            },
            _ => self,
        }
    }
}

impl PartialEq for KeyEvent {
    fn eq(&self, other: &KeyEvent) -> (same: bool) {
        let a = self.normalize_case();
        let b = other.normalize_case();
        a.code == b.code && a.modifiers == b.modifiers && a.kind == b.kind && a.state == b.state
    }
}

impl PartialEqSpecImpl for KeyEvent {
    open spec fn obeys_eq_spec() -> bool {
        true
    }

    open spec fn eq_spec(&self, other: &KeyEvent) -> bool {
        self.same_key(*other)
    }
}

impl Eq for KeyEvent {

}

/// A button of the mouse.
#[derive(Clone, Copy, Debug, PartialEq, Eq, Structural)]
pub enum MouseButton {
    Left,
    Right,
    Middle,
}

/// What the mouse did.
#[derive(Clone, Copy, Debug, PartialEq, Eq, Structural)]
pub enum MouseEventKind {
    Down(MouseButton),
    Up(MouseButton),
    Drag(MouseButton),
    Moved,
    ScrollDown,
    ScrollUp,
}

/// What the mouse did, the cell it pointed at, and the modifier keys held.
#[derive(Clone, Copy, Debug, PartialEq, Eq, Structural)]
pub struct MouseEvent {
    pub kind: MouseEventKind,
    pub column: u16,
    pub row: u16,
    pub modifiers: KeyModifiers,
}

/// What an engine reports when it is polled.
#[derive(Clone, Copy, Debug)]
pub enum Event {
    /// The time of a frame has passed.
    Frame,
    /// A key was pressed.
    Key(KeyEvent),
    /// The mouse was moved or clicked.
    Mouse(MouseEvent),
    /// The terminal now has this many columns and rows.
    Resize(u16, u16),
}

} // verus!
