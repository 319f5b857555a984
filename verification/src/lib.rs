//! Configuration and action resolution for a fretboard-diagram drawing tool.
//!
//! The crate turns persisted user settings and keybindings into validated
//! in-memory values:
//!
//! - the settings resolver parses a key-value settings snapshot (units,
//!   colors, font) into a [`settings::RenderConfig`], failing closed on the
//!   first malformed field;
//! - the keybinding resolver parses an optional keybinding definition into a
//!   [`keys::Keys`] table, failing open to built-in defaults on any error;
//! - the action registry wires the fixed set of commands to accelerators and
//!   activation handlers for a host shell to register.
//!
//! All file reading and user-interface work stays with the host; the
//! functions here are pure and fully specified.

use vstd::prelude::*;

pub mod text;
pub mod units;
pub mod color;
pub mod font;
pub mod command;
pub mod keys;
pub mod settings;
pub mod actions;

verus! {

/// Compiles the bundled locale data for distribution. No locales ship at
/// present, so there is nothing to compile and the step always succeeds.
pub fn translations() -> (r: Result<(), ()>)
    ensures
        r is Ok,
{
    Ok(())
}

} // verus!
