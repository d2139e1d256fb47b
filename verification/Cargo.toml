[package]
name = "flappy_core"
version = "0.1.0"
edition = "2021"
publish = false

[dependencies]
wasm-bindgen = "*"
serde = { version = "*", features = ["derive"] }
serde-wasm-bindgen = "*"
