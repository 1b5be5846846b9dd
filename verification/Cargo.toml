[package]
name = "phase1-cli"
version = "0.1.0"
edition = "2021"
publish = false

[dependencies]
algebra = "*"
blake2 = "0.10"
memmap = "0.7"
rand = "0.7"
tracing = "0.1"
