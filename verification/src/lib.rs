//! Monitoring the performance of opensim-core over its history: which
//! commits to compile, how to compile them, and how benchmark results are
//! kept.
use vstd::prelude::*;

pub mod bench_tests;
pub mod cmake;
pub mod command;
pub mod common;
pub mod compiler_service;
pub mod error;
pub mod folders;
pub mod history;
pub mod node;
pub mod repo;
pub mod status_converter;
pub mod text;

pub use command::{Command, CommandOutput, Invocation, PipedCommands, RunError, Runner};
pub use common::git;
pub use error::Error;
pub use folders::{Archive, BuildFolder, Folder, Home, ResultsFolder};

verus! {

/// The file holding the cmake flags in the home directory.
pub const CMAKE_CONFIG_FILE: &'static str = ".osimperf-cmake.conf";

/// Where opensim-core is fetched from.
pub const OPENSIM_CORE_URL: &'static str = "https://github.com/opensim-org/opensim-core.git";

/// Where the biomechanics lab's fork of opensim-core is fetched from.
pub const BIO_LAB_URL: &'static str = "git@github.com:ComputationalBiomechanicsLab/opensim-core.git";

} // verus!
