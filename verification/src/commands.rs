//! The tool's commands, as computations on plain values.

pub mod building;
pub mod check;
pub mod check_run;
pub mod discovery;
pub mod discovery_laws;
pub mod init;
pub mod laws;
