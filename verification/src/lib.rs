//! Project tooling: a line-based text check, build-argument assembly and
//! project scaffolding plans, with every function proved against its contract.

pub mod commands;
pub mod config;
pub mod database;
pub mod text;
pub mod utils;
