//! A named check that passes or says why it did not.
use vstd::prelude::*;

verus! {

pub trait Gate {
    /// The name the check is announced and reported under.
    fn label(&self) -> String;

    /// Runs the check: `Ok` when it passes, otherwise the reason it failed.
    fn run(&self) -> Result<(), String>;
}

} // verus!
