[package]
name = "oxml_wasm"
version = "0.0.8"
edition = "2021"
publish = false

[dependencies]
oxml = "*"
wasm-bindgen = "*"
