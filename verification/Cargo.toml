[package]
name = "wasminspect"
version = "0.1.0"
edition = "2021"
publish = false

[dependencies]
anyhow = "1"
gimli = "0.21"
parity-wasm = "0.41"
