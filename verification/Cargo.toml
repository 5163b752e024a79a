[package]
name = "volume_viewer"
version = "0.1.0"
edition = "2021"
publish = false

[dependencies]
anyhow = "*"
console_error_panic_hook = "*"
image = { version = "*", default-features = false }
js-sys = "*"
log = "*"
nalgebra = "*"
tiff = "*"
wasm-bindgen = "*"
