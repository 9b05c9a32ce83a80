[package]
name = "bygge"
version = "0.1.0"
edition = "2021"
publish = false

[dependencies]
cargo_toml = "=1.0.1"
cargo-lock = { version = "=11.1.0", features = ["dependency-tree"] }
petgraph = "=0.8.3"
pico-args = "=0.5.0"
