[package]
name = "search_worker"
version = "0.1.0"
edition = "2021"
publish = false

[dependencies]
prost = "*"
js-sys = "0.3"
wasm-bindgen = "0.2"
web-sys = { version = "0.3", features = ["DedicatedWorkerGlobalScope", "console"] }
