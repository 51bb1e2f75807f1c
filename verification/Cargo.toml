[package]
name = "walcore"
version = "0.1.0"
edition = "2021"
publish = false

[dependencies]
anyhow = "*"
chrono = "*"
close_fds = "*"
nix = { version = "*", features = ["poll", "signal", "fs", "process"] }
scopeguard = "*"
thiserror = "*"
tokio = { version = "*", features = ["rt", "rt-multi-thread", "sync", "time", "macros"] }
tracing = "*"
