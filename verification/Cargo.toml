[package]
name = "read_metrics"
version = "0.1.0"
edition = "2021"
publish = false

[dependencies]
arrow = "*"
clap = { version = "*", features = ["derive"] }
env_logger = "*"
log = "*"
rust-htslib = "*"
