[package]
name = "osimperf_lib"
version = "0.1.0"
edition = "2021"
publish = false

[dependencies]
anyhow = "1"
chrono = "0.4"
clap = { version = "4", features = ["derive"] }
crossterm = "0.27"
env_logger = "0.10"
log = "0.4"
nix = { version = "0.27", features = ["fs"] }
ratatui = "0.23"
serde = { version = "1", features = ["derive"] }
serde_json = "1"
