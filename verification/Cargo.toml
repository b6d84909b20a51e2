[package]
name = "athenas_pallas"
version = "0.1.0"
edition = "2021"
publish = false

[dependencies]
rust_decimal = "1"
time = { version = "0.3", features = ["parsing", "formatting"] }
