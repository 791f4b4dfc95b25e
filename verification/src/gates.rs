//! The checks run in turn over the workspace, each delegating to a tool.
pub mod gate;
pub mod stage2;
pub mod tool;
pub mod stern_gate;
pub mod iceberg_gate;
pub mod twin_self_gate;
pub mod crap_gate;
