[package]
name = "redidl"
version = "0.1.0"
edition = "2021"
publish = false

[dependencies]
syn = { version = "1", features = ["full", "visit", "visit-mut", "extra-traits"] }
quote = "1"
proc-macro2 = "1"
clap = "2"
log = "0.4"
env_logger = "0.9"
