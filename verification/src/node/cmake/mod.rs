//! Compiling a target with cmake: the flags, and the commands.
pub mod cmake_cmds;
pub mod config;

pub use cmake_cmds::{CMakeBuilder, CMakeCmds, CMakeConfigurerer};
pub use config::{CMakeConfig, CMakeConfigReader};
