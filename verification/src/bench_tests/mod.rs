//! Benchmarks run on compiled commits, and their results.
pub mod config;
pub mod context;
pub mod node;
pub mod result;
pub mod run_cmds;
pub mod table;

pub use config::{BenchTestSetup, ReadBenchTestSetup};
pub use context::{find_modeling_file, flattened_path};
pub use node::TestNode;
pub use result::{BenchTestResult, Durations};
pub use run_cmds::{run_pre_test_cmds, run_post_test_cmds, run_test_bench_cmd, FileEnvVars};
