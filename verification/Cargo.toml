[package]
name = "zenoh_wasm"
version = "0.1.0"
edition = "2021"
publish = false

[dependencies]
async-trait = "0.1"
flume = "0.11"
futures = "0.3"
js-sys = "0.3"
serde = { version = "1", features = ["derive"] }
tokio = { version = "1", features = ["macros", "rt-multi-thread", "sync", "time"] }
tokio-util = { version = "0.7", features = ["rt"] }
tracing = "0.1"
wasm-bindgen = "0.2"
wasm-bindgen-futures = "0.4"
web-sys = { version = "0.3", features = ["BinaryType", "Blob", "BlobPropertyBag", "MessageEvent", "Performance", "Url", "WebSocket", "Worker"] }
