[package]
name = "perceptron"
version = "0.1.0"
edition = "2021"
publish = false

[dependencies]
rand = "0.8"
serde = { version = "1", features = ["derive"] }
tsify = "0.4"
wasm-bindgen = "0.2"
