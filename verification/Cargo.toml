[package]
name = "imagemix"
version = "0.1.0"
edition = "2021"
publish = false

[dependencies]
image = "*"
mimetype-detector = "*"
wasm-bindgen = "*"
js-sys = "*"
