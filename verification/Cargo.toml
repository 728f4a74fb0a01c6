[package]
name = "pi_estimation_channels"
version = "0.1.0"
edition = "2021"
publish = false

[dependencies]
crossbeam-channel = "0.5"
rand = "0.9"
clap = { version = "4", features = ["derive"] }
