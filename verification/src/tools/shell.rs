//! What a command that was run has left.
use vstd::prelude::*;

verus! {

/// Milliseconds that a command may take by default.
pub const DEFAULT_TIMEOUT_MS: u64 = 10000;

/// Output of a finished command.
#[derive(Debug)]
pub struct CmdOutput {
    pub stdout: String,
    pub stderr: String,
    /// Whether the command exited with success.
    pub status_ok: bool,
}

} // verus!
