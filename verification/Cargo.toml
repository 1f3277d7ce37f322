[package]
name = "nusa_vm"
version = "0.1.0"
edition = "2021"
publish = false

[dependencies]
wasmtime = { version = "=46.0.3", default-features = false, features = ["runtime", "std"] }
