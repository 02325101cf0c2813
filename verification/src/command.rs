//! What a command hands back to the prompt loop.
use vstd::prelude::*;

verus! {

/// The outcome of running a command.
#[derive(Clone, Debug)]
pub enum CommandResult {
    /// The command did its work; the message is shown to the user.
    Success(String),
    /// The command failed; the message is shown to the user.
    Failure(String),
    /// The command asks the prompt loop to stop.
    Exit,
}

} // verus!
