//! Running the external tools the checks delegate to.
pub mod command_outcome;
pub mod command_runner;
