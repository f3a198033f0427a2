//! Commands of the control socket.
use vstd::prelude::*;

use crate::text::{chars_are, chars_of, trim, trimmed};

verus! {

#[derive(Clone, Copy, Debug, PartialEq, Eq, Structural)]
pub enum VisibilityCommand {
    Show,
    Hide,
    Toggle,
}

/// The command that a message names, ignoring surrounding white space.
pub open spec fn command_of(message: Seq<char>) -> Option<VisibilityCommand> {
    let m = trim(message);
    if m == "show"@ {
        Some(VisibilityCommand::Show)
    } else if m == "hide"@ {
        Some(VisibilityCommand::Hide)
    } else if m == "toggle"@ {
        Some(VisibilityCommand::Toggle)
    } else {
        None
    }
}

/// The command of one message read from the socket; other messages are ignored.
pub fn parse_command(message: &str) -> (r: Option<VisibilityCommand>)
    ensures
        r == command_of(message@),
{
    let m = trimmed(&chars_of(message));
    if chars_are(&m, "show") {
        Some(VisibilityCommand::Show)
    } else if chars_are(&m, "hide") {
        Some(VisibilityCommand::Hide)
    } else if chars_are(&m, "toggle") {
        Some(VisibilityCommand::Toggle)
    } else {
        None
    }
}

/// Whether the keyboard is visible after a command.
pub fn visible_after(command: VisibilityCommand, visible: bool) -> (r: bool)
    ensures
        r == match command {
            VisibilityCommand::Show => true,
            VisibilityCommand::Hide => false,
            VisibilityCommand::Toggle => !visible,
        },
{
    match command {
        VisibilityCommand::Show => true,
        VisibilityCommand::Hide => false,
        VisibilityCommand::Toggle => !visible,
    }
}

} // verus!
