[package]
name = "rustfoil"
version = "0.1.0"
edition = "2021"
publish = false

[dependencies]
console_error_panic_hook = "0.1"
nalgebra = "0.33"
pyo3 = { version = "0.23", features = ["extension-module", "abi3-py38"] }
rayon = "1"
serde = { version = "1", features = ["derive"] }
serde-wasm-bindgen = "0.6"
wasm-bindgen = "0.2"
