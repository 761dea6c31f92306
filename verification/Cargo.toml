[package]
name = "ressim"
version = "0.1.0"
edition = "2021"
publish = false

[dependencies]
sprs = "*"
rand = "*"
serde = { version = "*", features = ["derive"] }
nalgebra = "*"
wasm-bindgen = "*"
serde-wasm-bindgen = "*"
console_error_panic_hook = "*"
