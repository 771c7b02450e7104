[package]
name = "neural_network"
version = "0.1.0"
edition = "2021"
publish = false

[dependencies]
byteorder = "1"
clap = { version = "4", features = ["derive"] }
flate2 = "1"
ndarray = "0.15"
ndarray-rand = "0.14"
rand = "0.8"
