[package]
name = "wasi_runner"
version = "0.1.0"
edition = "2021"
publish = false

[dependencies]
anyhow = "*"
axum = { version = "*", features = ["ws"] }
deadpool-postgres = "*"
futures = "*"
rand = "=0.10.3"
serde = { version = "*", features = ["derive"] }
serde_json = "*"
sha256 = "=1.6.0"
tokio = { version = "*", features = ["full"] }
tokio-postgres = "*"
tokio-stream = "*"
wasi-preview1-component-adapter-provider = "=48.0.5"
wasmtime = "=48.0.5"
wasmtime-wasi = "=48.0.5"
wit-component = "*"
