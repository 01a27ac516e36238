[package]
name = "kv_loadgen"
version = "0.1.0"
edition = "2021"
publish = false

[dependencies]
anyhow = "1"
autometrics = { version = "*", features = ["prometheus-exporter"] }
axum = "0.8"
clap = { version = "4", features = ["derive"] }
prost = "0.13"
rand = "0.9"
tokio = { version = "1", features = ["macros", "net", "rt-multi-thread", "time"] }
tonic = "0.13"
