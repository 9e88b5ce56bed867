//! Tracking of the held modifier keys across key press and release
//! events; the host translates its toolkit's key identifiers into
//! `ModKey` values.

use vstd::prelude::*;

use crate::data::ModifierState;

verus! {

/// A key as the modifier tracker sees it: one of the eight modifier
/// keys, or anything else.
#[derive(Debug, PartialEq, Eq, Structural, Clone, Copy)]
pub enum ModKey {
    CtrlLeft,
    CtrlRight,
    ShiftLeft,
    ShiftRight,
    AltLeft,
    AltRight,
    SuperLeft,
    SuperRight,
    Other,
}

/// The state after a press or release of `key` with value `down`.
pub open spec fn modifier_transition(s: ModifierState, key: ModKey, down: bool) -> ModifierState {
    match key {
        ModKey::CtrlLeft | ModKey::CtrlRight => ModifierState { ctrl: down, ..s },
        ModKey::ShiftLeft | ModKey::ShiftRight => ModifierState { shift: down, ..s },
        ModKey::AltLeft | ModKey::AltRight => ModifierState { alt: down, ..s },
        ModKey::SuperLeft | ModKey::SuperRight => ModifierState { super_key: down, ..s },
        ModKey::Other => s,
    }
}

/// Tracks the modifier keys held at any moment.
#[derive(Debug)]
pub struct ModifierHandler {
    state: ModifierState,
}

impl ModifierHandler {
    /// The state the tracker currently holds.
    pub closed spec fn current(&self) -> ModifierState {
        self.state
    }

    /// A tracker starting from the given state.
    pub fn new(initial_state: ModifierState) -> (r: Self)
        ensures
            r.current() == initial_state,
    {
        ModifierHandler { state: initial_state }
    }

    /// The current state.
    pub fn state(&self) -> (r: &ModifierState)
        ensures
            r == self.current(),
    {
        &self.state
    }

    /// Handles a key press; true exactly when the key is a modifier.
    pub fn handle_key_press(&mut self, key: ModKey) -> (r: bool)
        ensures
            final(self).current() == modifier_transition(old(self).current(), key, true),
            r == (key != ModKey::Other),
    {
        self.handle(key, true)
    }

    /// Handles a key release; true exactly when the key is a modifier.
    pub fn handle_key_release(&mut self, key: ModKey) -> (r: bool)
        ensures
            final(self).current() == modifier_transition(old(self).current(), key, false),
            r == (key != ModKey::Other),
    {
        self.handle(key, false)
    }

    fn handle(&mut self, key: ModKey, down: bool) -> (r: bool)
        ensures
            final(self).current() == modifier_transition(old(self).current(), key, down),
            r == (key != ModKey::Other),
    {
        match key {
            ModKey::CtrlLeft | ModKey::CtrlRight => {
                self.state.ctrl = down;
                true
            },
            ModKey::ShiftLeft | ModKey::ShiftRight => {
                self.state.shift = down;
                true
            },
            ModKey::AltLeft | ModKey::AltRight => {
                self.state.alt = down;
                true
            },
            ModKey::SuperLeft | ModKey::SuperRight => {
                self.state.super_key = down;
                true
            },
            ModKey::Other => false,
        }
    }
}

} // verus!
