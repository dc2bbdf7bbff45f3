[package]
name = "aphreco"
version = "0.1.0"
edition = "2021"
publish = false

[dependencies]
rust_decimal = { version = "1", default-features = false, features = ["std"] }
rand = "0.8"
ndarray = "0.15"
chrono = "0.4"
num-traits = "0.2"
