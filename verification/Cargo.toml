[package]
name = "rainflow"
version = "0.1.0"
edition = "2021"
publish = false

[dependencies]
num-traits = "=0.2.19"
anyhow = "=1.0.104"
clap = { version = "=4.6.7", features = ["derive"] }
csv = "=1.4.0"
pyo3 = { version = "0.25", features = ["extension-module", "abi3-py39"] }
