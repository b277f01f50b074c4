[package]
name = "rust_hpc_communication_test"
version = "0.1.0"
edition = "2021"
publish = false

[dependencies]
clap = { version = "4", features = ["derive"] }
csv = "1"
mpi = "0.8"
rand = "0.9"
tokio = { version = "1", features = ["net", "rt"] }
