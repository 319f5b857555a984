//! The fixed, closed set of user-invocable commands and their stored names.

use vstd::prelude::*;

use crate::text::str_eq;

verus! {

/// One of the seven commands a user can invoke. The set is closed and known
/// at compile time; matching on it is exhaustive, so no unrecognized command
/// can reach the registry at run time.
#[derive(Clone, Copy, Debug, PartialEq, Eq, Structural)]
pub enum Command {
    Open,
    Save,
    SaveAs,
    OpenExternal,
    Preferences,
    About,
    Quit,
}

impl Command {
    /// The name a command is stored and registered under.
    pub open spec fn spec_name(self) -> Seq<char> {
        match self {
            Command::Open => "open"@,
            Command::Save => "save"@,
            Command::SaveAs => "save_as"@,
            Command::OpenExternal => "open_external"@,
            Command::Preferences => "preferences"@,
            Command::About => "about"@,
            Command::Quit => "quit"@,
        }
    }

    /// The command a stored name denotes, if any.
    pub open spec fn of_name(s: Seq<char>) -> Option<Command> {
        if s == "open"@ {
            Some(Command::Open)
        } else if s == "save"@ {
            Some(Command::Save)
        } else if s == "save_as"@ {
            Some(Command::SaveAs)
        } else if s == "open_external"@ {
            Some(Command::OpenExternal)
        } else if s == "preferences"@ {
            Some(Command::Preferences)
        } else if s == "about"@ {
            Some(Command::About)
        } else if s == "quit"@ {
            Some(Command::Quit)
        } else {
            None
        }
    }

    /// The name a command is stored and registered under.
    pub fn name(&self) -> (r: &'static str)
        ensures
            r@ == self.spec_name(),
    {
        match self {
            Command::Open => "open",
            Command::Save => "save",
            Command::SaveAs => "save_as",
            Command::OpenExternal => "open_external",
            Command::Preferences => "preferences",
            Command::About => "about",
            Command::Quit => "quit",
        }
    }

    /// Looks a stored name up in the command set.
    pub fn from_name(s: &str) -> (r: Option<Command>)
        ensures
            r == Self::of_name(s@),
    {
        if str_eq(s, "open") {
            Some(Command::Open)
        } else if str_eq(s, "save") {
            Some(Command::Save)
        } else if str_eq(s, "save_as") {
            Some(Command::SaveAs)
        } else if str_eq(s, "open_external") {
            Some(Command::OpenExternal)
        } else if str_eq(s, "preferences") {
            Some(Command::Preferences)
        } else if str_eq(s, "about") {
            Some(Command::About)
        } else if str_eq(s, "quit") {
            Some(Command::Quit)
        } else {
            None
        }
    }
}

} // verus!
