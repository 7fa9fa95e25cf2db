//! The request to terminate.

use vstd::prelude::*;

verus! {

/// Whether the daemon has been asked to terminate.
#[derive(Clone, Copy, Debug, PartialEq, Eq, Structural)]
pub struct ExitFlag {
    pub raised: bool,
}

impl ExitFlag {
    /// A flag that nobody has raised yet.
    pub fn new() -> (flag: ExitFlag)
        ensures
            !flag.raised,
    {
        ExitFlag { raised: false }
    }
}

/// Asks the daemon to terminate. Nothing ever takes the request back.
pub fn exit_daemon(exit: &mut ExitFlag)
    ensures
        final(exit).raised,
{
    exit.raised = true;
}

/// Whether the main loop has to end.
pub fn should_daemon_exit(exit: &ExitFlag) -> (r: bool)
    ensures
        r == exit.raised,
{
    exit.raised
}

} // verus!
