[package]
name = "wind_field"
version = "0.1.0"
edition = "2021"
publish = false

[dependencies]
wasm-bindgen = "*"
js-sys = "*"
web-sys = { version = "*", features = ["console"] }
console_error_panic_hook = "*"
serde = "*"
serde_derive = "*"
serde-wasm-bindgen = "*"
