//! Key presses, as far as the editor tells them apart.

use vstd::prelude::*;

verus! {

/// The key that was pressed.
#[derive(Clone, Copy, Debug, PartialEq, Eq)]
pub enum Key {
    /// A key that stands for a character.
    Char(char),
    Enter,
    Backspace,
    Left,
    Right,
    Up,
    Down,
    Esc,
    /// Any key that the editor has no use for.
    Other,
}

/// The modifier keys that were held down during a key press.
#[derive(Clone, Copy, Debug, PartialEq, Eq)]
pub struct Modifiers {
    pub shift: bool,
    pub control: bool,
    pub alt: bool,
    pub super_key: bool,
    pub hyper: bool,
    pub meta: bool,
}

impl Modifiers {
    /// Control was held down, and no other modifier.
    pub open spec fn control_only(self) -> bool {
        self.control && !self.shift && !self.alt && !self.super_key && !self.hyper && !self.meta
    }

    /// No modifier held down.
    pub fn none() -> (modifiers: Modifiers)
        ensures
            modifiers == (Modifiers {
                shift: false,
                control: false,
                alt: false,
                super_key: false,
                hyper: false,
                meta: false,
            }),
            !modifiers.control_only(),
    {
        Modifiers {
            shift: false,
            control: false,
            alt: false,
            super_key: false,
            hyper: false,
            meta: false,
        }
    }

    /// Control held down, and nothing else.
    pub fn control() -> (modifiers: Modifiers)
        ensures
            modifiers == (Modifiers {
                shift: false,
                control: true,
                alt: false,
                super_key: false,
                hyper: false,
                meta: false,
            }),
            modifiers.control_only(),
    {
        Modifiers {
            shift: false,
            control: true,
            alt: false,
            super_key: false,
            hyper: false,
            meta: false,
        }
    }

    /// Whether control was held down, and no other modifier.
    pub fn is_control_only(&self) -> (only: bool)
        ensures
            only == self.control_only(),
    {
        self.control && !self.shift && !self.alt && !self.super_key && !self.hyper && !self.meta
    }
}

/// One key press: the key and the modifiers held down with it.
#[derive(Clone, Copy, Debug, PartialEq, Eq)]
pub struct KeyPress {
    pub code: Key,
    pub modifiers: Modifiers,
}

/// The character whose key, pressed with control alone, saves the text.
pub const SAVE_CHAR: char = 's';

impl KeyPress {
    /// The press that saves: the save character with control alone.
    pub open spec fn saves(self) -> bool {
        self.code == Key::Char(SAVE_CHAR) && self.modifiers.control_only()
    }

    /// `code` pressed with no modifier.
    pub fn plain(code: Key) -> (press: KeyPress)
        ensures
            press.code == code,
            press.modifiers == (Modifiers {
                shift: false,
                control: false,
                alt: false,
                super_key: false,
                hyper: false,
                meta: false,
            }),
            !press.saves(),
    {
        KeyPress { code, modifiers: Modifiers::none() }
    }

    /// `code` pressed with control alone.
    pub fn with_control(code: Key) -> (press: KeyPress)
        ensures
            press.code == code,
            press.modifiers == (Modifiers {
                shift: false,
                control: true,
                alt: false,
                super_key: false,
                hyper: false,
                meta: false,
            }),
            press.saves() <==> code == Key::Char(SAVE_CHAR),
    {
        KeyPress { code, modifiers: Modifiers::control() }
    }
}

} // verus!
