[package]
name = "zip_writer"
version = "0.1.0"
edition = "2021"
publish = false

[dependencies]
wasm-bindgen = "=0.2.92"
js-sys = "=0.3.69"

[dev-dependencies]
zip = { version = "=8.6.0", default-features = false }
