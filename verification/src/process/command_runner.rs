//! The seam through which the checks launch other programs; each caller
//! supplies its own implementation, a real one or a stand-in.
use vstd::prelude::*;
use crate::process::command_outcome::CommandOutcome;

verus! {

pub trait CommandRunner {
    /// Whether a program named `binary_name` can be found.
    fn is_available(&self, binary_name: &str) -> bool;

    /// Runs `program` with `args`, its output going where the caller's goes;
    /// the exit code, `None` when the program was killed by a signal, or an
    /// error when it could not be launched.
    fn run_streaming(&self, program: &str, args: &[String]) -> Result<Option<i32>, String>;

    /// Runs `program` with `args` and keeps what it printed; an error when it
    /// could not be launched.
    fn run_capturing(&self, program: &str, args: &[String]) -> Result<CommandOutcome, String>;
}

} // verus!
