//! The commands the program understands.

use vstd::prelude::*;

use crate::constants::{
    CONFIG_COMMAND_LONG, CONFIG_COMMAND_SHORT, HELP_COMMAND_LONG, HELP_COMMAND_SHORT,
    NEW_COMMAND_LONG, NEW_COMMAND_SHORT, SAVE_COMMAND_LONG, SAVE_COMMAND_SHORT,
};

verus! {

/// Whether the window that shows the world opens after a command.
#[derive(Clone, Copy, Debug, PartialEq, Eq, Structural)]
pub enum BouncyWorldWindow {
    Show,
    Hide,
}

/// A command word, in its long or its short form.
#[derive(Clone, Copy, Debug, PartialEq, Eq, Structural)]
pub enum Command {
    /// Make and save a default world.
    New,
    /// Save a world made from the configuration found nearby.
    Save,
    /// Write a default configuration file.
    Config,
    /// List the commands.
    Help,
    /// Anything else.
    Unknown,
}

/// The command a word names.
pub open spec fn command_of(s: Seq<char>) -> Command {
    if s == NEW_COMMAND_LONG@ || s == NEW_COMMAND_SHORT@ {
        Command::New
    } else if s == SAVE_COMMAND_LONG@ || s == SAVE_COMMAND_SHORT@ {
        Command::Save
    } else if s == CONFIG_COMMAND_LONG@ || s == CONFIG_COMMAND_SHORT@ {
        Command::Config
    } else if s == HELP_COMMAND_LONG@ || s == HELP_COMMAND_SHORT@ {
        Command::Help
    } else {
        Command::Unknown
    }
}

/// Whether two texts hold the same characters.
fn same_text(a: &str, b: &str) -> (r: bool)
    ensures
        r == (a@ == b@),
{
    let n = a.unicode_len();
    if n != b.unicode_len() {
        return false;
    }
    let mut i: usize = 0;
    while i < n
        invariant
            i <= n,
            n == a@.len(),
            n == b@.len(),
            forall|j: int| 0 <= j < i ==> a@[j] == b@[j],
        decreases n - i,
    {
        if a.get_char(i) != b.get_char(i) {
            return false;
        }
        i = i + 1;
    }
    assert(a@ =~= b@);
    true
}

/// Reads a command word.
pub fn parse_command(given_command: &str) -> (c: Command)
    ensures
        c == command_of(given_command@),
{
    if same_text(given_command, NEW_COMMAND_LONG) || same_text(given_command, NEW_COMMAND_SHORT) {
        Command::New
    } else if same_text(given_command, SAVE_COMMAND_LONG) || same_text(
        given_command,
        SAVE_COMMAND_SHORT,
    ) {
        Command::Save
    } else if same_text(given_command, CONFIG_COMMAND_LONG) || same_text(
        given_command,
        CONFIG_COMMAND_SHORT,
    ) {
        Command::Config
    } else if same_text(given_command, HELP_COMMAND_LONG) || same_text(
        given_command,
        HELP_COMMAND_SHORT,
    ) {
        Command::Help
    } else {
        Command::Unknown
    }
}

} // verus!
