[package]
name = "wasm_z80"
version = "0.1.0"
edition = "2021"
publish = false

[dependencies]
wasmparser = "*"
