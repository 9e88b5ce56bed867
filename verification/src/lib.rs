//! Input-synthesis library: a fixed key table, a script compiler that
//! turns shortcut chords, free text and pauses into atomic input steps,
//! the wire format of a virtual keyboard device, and the ordering rules
//! of the action execution engine.

pub mod actions;
pub mod ckey;
pub mod config;
pub mod data;
pub mod device;
pub mod executor;
pub mod layout;
pub mod modifier;
pub mod process;
pub mod resources;
pub mod script;
pub mod steps;
pub mod text;
pub mod vkey;
