//! The window styles a board window can open with.

use vstd::prelude::*;

use crate::text::{eq_chars, to_chars};

verus! {

/// How the board window is decorated.
#[derive(Debug, PartialEq, Eq, Structural, Clone, Copy)]
pub enum WindowStyle {
    /// A regular window with title bar and borders.
    Window,
    /// A borderless window that still shows in the taskbar.
    Taskbar,
}

impl Default for WindowStyle {
    fn default() -> (r: Self)
        ensures
            r == WindowStyle::Window,
    {
        WindowStyle::Window
    }
}

impl WindowStyle {
    /// Reads a style name; anything unrecognized falls back to the
    /// regular window.
    pub fn from_string(s: &str) -> (r: Self)
        ensures
            r == if s@ == "Taskbar"@ {
                WindowStyle::Taskbar
            } else {
                WindowStyle::Window
            },
    {
        let cs = to_chars(s);
        let taskbar = to_chars("Taskbar");
        if eq_chars(&cs, &taskbar) {
            WindowStyle::Taskbar
        } else {
            WindowStyle::Window
        }
    }

    /// Whether this style carries decorations (title bar, borders).
    pub fn has_decorations(&self) -> (r: bool)
        ensures
            r == (*self == WindowStyle::Window),
    {
        matches!(self, WindowStyle::Window)
    }
}

} // verus!
