[package]
name = "sky_engine_core"
version = "0.1.0"
edition = "2021"
publish = false

[dependencies]
hifitime = "*"
vsop87 = "*"
wasm-bindgen = "*"
web-sys = { version = "*", features = ["console"] }
