[package]
name = "toy_payments_engine"
version = "0.1.0"
edition = "2021"
publish = false

[dependencies]
clap = { version = "4", features = ["derive"] }
csv = "1"
rust_decimal = "1"
serde = { version = "1", features = ["derive"] }
