[package]
name = "rust_hdl"
version = "0.1.0"
edition = "2021"
publish = false

[dependencies]
num-bigint = "0.4"
vcd = "0.6"
svg = "0.10"
anyhow = "1"
crossbeam = "0.8"
regex = "1"
evalexpr = "6"

[dev-dependencies]
rand = "0.8"
