[package]
name = "bottles-plugins"
version = "0.1.0"
edition = "2021"
publish = false

[dependencies]
async-fs = "=2.2.0"
async-process = "=2.5.0"
async-trait = "=0.1.92"
blocking = "=1.7.0"
futures = "=0.3.34"
futures-lite = "=2.6.1"
heck = "=0.5.0"
semver = { version = "=1.0.28", features = ["serde"] }
serde = { version = "=1.0.229", features = ["derive"] }
thiserror = "=2.0.21"
tokio = { version = "=1.54.1", features = ["sync"] }
toml = "=1.1.8"
tracing = "=0.1.44"
url = { version = "=2.5.8", features = ["serde"] }
uuid = { version = "=1.29.0", features = ["v4", "serde"] }
wasmparser = "=0.263.0"
wasmtime = { version = "=47.0.4", features = ["component-model", "component-model-async"] }
wasmtime-wasi = { version = "=47.0.4", features = ["p3"] }
wasmtime-wasi-http = { version = "=47.0.4", features = ["p3"] }
wit-parser = "=0.252.0"
