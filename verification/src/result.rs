//! The ways in which talking to the target can fail.

use vstd::prelude::*;

verus! {

/// Why the flash controller did not complete a command.
#[derive(Clone, Copy, Debug, PartialEq, Eq, Structural)]
pub enum CommandError {
    /// The controller raised its command-error flag: it refused the command,
    /// for instance because the page or the argument was invalid.
    Rejected,
    /// The controller did not raise its ready flag within the polling limit.
    TimedOut,
}

/// Why an operation on the target failed. Every error ends the run: nothing
/// is retried and nothing already written is rolled back.
#[derive(Clone, Copy, Debug, PartialEq, Eq, Structural)]
pub enum Error {
    /// The serial channel failed or timed out.
    Transport,
    /// The monitor answered with something other than the protocol allows,
    /// or a command was issued out of turn.
    Protocol,
    /// The flash controller rejected a command or never became ready.
    Command(CommandError),
    /// The image is larger than the one flash plane that is supported.
    SizeLimit,
}

} // verus!
