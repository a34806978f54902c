//! Key presses as the handlers see them.

use vstd::prelude::*;

verus! {

/// A key.
#[derive(Debug, Clone, Copy, PartialEq, Eq, Structural)]
pub enum KeyCode {
    Backspace,
    Enter,
    Left,
    Right,
    Up,
    Down,
    Home,
    End,
    PageUp,
    PageDown,
    Tab,
    BackTab,
    Delete,
    Insert,
    F(u8),
    Char(char),
    Esc,
    /// Any other key.
    Other,
}

/// The modifier keys held.
#[derive(Debug, Clone, Copy, PartialEq, Eq, Structural)]
pub struct KeyModifiers {
    pub shift: bool,
    pub control: bool,
    pub alt: bool,
    pub super_key: bool,
    pub hyper: bool,
    pub meta: bool,
}

impl KeyModifiers {
    /// No modifier.
    pub fn none() -> (r: KeyModifiers)
        ensures
            !r.shift && !r.control && !r.alt && !r.super_key && !r.hyper && !r.meta,
    {
        KeyModifiers { shift: false, control: false, alt: false, super_key: false, hyper: false, meta: false }
    }

    /// Control and nothing else.
    pub open spec fn is_control_only(self) -> bool {
        self.control && !self.shift && !self.alt && !self.super_key && !self.hyper && !self.meta
    }
}

/// A key press.
#[derive(Debug, Clone, Copy, PartialEq, Eq, Structural)]
pub struct KeyEvent {
    pub code: KeyCode,
    pub modifiers: KeyModifiers,
}

impl KeyEvent {
    /// The key with no modifier.
    pub fn new(code: KeyCode) -> (r: KeyEvent)
        ensures
            r.code == code,
            !r.modifiers.shift && !r.modifiers.control && !r.modifiers.alt,
            !r.modifiers.super_key && !r.modifiers.hyper && !r.modifiers.meta,
    {
        KeyEvent { code, modifiers: KeyModifiers::none() }
    }

    /// The key with the modifiers.
    pub fn with_modifiers(code: KeyCode, modifiers: KeyModifiers) -> (r: KeyEvent)
        ensures
            r.code == code,
            r.modifiers == modifiers,
    {
        KeyEvent { code, modifiers }
    }

    /// Whether control, and nothing else, is held.
    pub fn control_only(&self) -> (r: bool)
        ensures
            r == self.modifiers.is_control_only(),
    {
        self.modifiers.control && !self.modifiers.shift && !self.modifiers.alt && !self.modifiers.super_key
            && !self.modifiers.hyper && !self.modifiers.meta
    }
}

} // verus!
