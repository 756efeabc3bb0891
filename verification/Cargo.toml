[package]
name = "weather_markov"
version = "0.1.0"
edition = "2021"
publish = false

[dependencies]
getrandom = "0.2"
ndarray = "0.16"
serde = { version = "1", features = ["derive"] }
serde_json = "1"
wasm-bindgen = "0.2"
serde-wasm-bindgen = "0.6"
console_error_panic_hook = "0.1"
