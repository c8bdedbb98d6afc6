//! State of the terminal screens and the keys that drive them.

use vstd::prelude::*;

pub mod add_user;
pub mod user_detail;
pub mod telegram_setup;
pub mod dashboard;
pub mod theme;
pub mod qr;

verus! {

/// A key press, as the screens see it.
#[derive(Debug, Clone, Copy, PartialEq, Eq)]
pub enum Key {
    Char(char),
    Backspace,
    Enter,
    Esc,
    Tab,
    BackTab,
    Up,
    Down,
    Other,
}

/// A rectangle of terminal cells.
#[derive(Debug, Clone, Copy, PartialEq, Eq)]
pub struct Rect {
    pub x: u16,
    pub y: u16,
    pub width: u16,
    pub height: u16,
}

} // verus!
