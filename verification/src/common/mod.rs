//! Shared helpers: git access.
pub mod git;
pub mod git_hashes;
