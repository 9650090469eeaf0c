[package]
name = "plinken_wclap"
version = "0.1.0"
edition = "2021"
publish = false

[dependencies]
wasmtime = "=46.0.3"
thiserror = "=2.0.21"
