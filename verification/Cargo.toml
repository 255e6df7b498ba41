[package]
name = "sandpile"
version = "0.1.0"
edition = "2021"
publish = false

[dependencies]
array2d = "*"
rand = "0.9"
wasm-bindgen = "0.2"
