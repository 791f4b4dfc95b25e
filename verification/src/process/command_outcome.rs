//! What a finished command left behind.
use vstd::prelude::*;

verus! {

#[derive(Debug, Clone, PartialEq, Eq)]
pub struct CommandOutcome {
    pub exit_code: Option<i32>,
    pub stdout: String,
    pub stderr: String,
}

impl CommandOutcome {
    pub fn new(exit_code: Option<i32>, stdout: String, stderr: String) -> (r: Self)
        ensures
            r.exit_code == exit_code,
            r.stdout == stdout,
            r.stderr == stderr,
    {
        CommandOutcome { exit_code, stdout, stderr }
    }

    /// Whether the command exited with code 0. A command killed by a signal
    /// has no exit code, and that is a failure rather than an unknown.
    pub fn is_success(&self) -> (r: bool)
        ensures
            r == (self.exit_code == Some(0i32)),
    {
        match self.exit_code {
            Some(code) => code == 0,
            None => false,
        }
    }
}

} // verus!
