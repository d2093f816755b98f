//! The keys that the viewer understands.

use vstd::prelude::*;

verus! {

/// A key, as far as the viewer tells keys apart.
#[derive(Debug, Clone, Copy, PartialEq, Eq, Structural)]
pub enum KeyCode {
    Char(char),
    Esc,
    Enter,
    Tab,
    Backspace,
    Up,
    Down,
    Left,
    Right,
    PageUp,
    PageDown,
    Home,
    End,
    /// Any other key.
    Other,
}

/// A key that was pressed. `control` says that Control, and no other
/// modifier, was held down with it.
#[derive(Debug, Clone, Copy, PartialEq, Eq, Structural)]
pub struct KeyPress {
    pub code: KeyCode,
    pub control: bool,
}

/// What the surrounding program has to do after a key was handled.
#[derive(Debug, Clone, Copy, PartialEq, Eq, Structural)]
pub enum Effect {
    /// Nothing.
    Nothing,
    /// Write the chosen colours and style to the settings file.
    SaveSettings,
}

/// `c` is a control character: one of the code points up to U+001F, or from
/// U+007F to U+009F.
pub open spec fn is_control_char(c: char) -> bool {
    c <= '\u{1f}' || ('\u{7f}' <= c && c <= '\u{9f}')
}

/// Whether `c` is a control character.
pub fn is_control(c: char) -> (control: bool)
    ensures
        control == is_control_char(c),
{
    c <= '\u{1f}' || ('\u{7f}' <= c && c <= '\u{9f}')
}

impl KeyPress {
    /// The key is the character `c`.
    pub open spec fn is_char(self, c: char) -> bool {
        self.code == KeyCode::Char(c)
    }

    /// Whether the key is the character `c`.
    pub fn has_char(&self, c: char) -> (is: bool)
        ensures
            is == self.is_char(c),
    {
        match self.code {
            KeyCode::Char(d) => d == c,
            _ => false,
        }
    }
}

} // verus!
