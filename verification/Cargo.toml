[package]
name = "tiangz"
version = "0.1.0"
edition = "2021"
publish = false

[dependencies]
async-trait = "0.1"
clap = { version = "4", features = ["derive"] }
dashmap = "=6.2.1"
lazy_static = "1"
rmp-serde = "=1.3.1"
serde = { version = "1", features = ["derive"] }
serde_json = "=1.0.154"
tokio = { version = "=1.54.1", features = ["full"] }
tokio_kcp = "=0.9.8"
tracing = "0.1"
tracing-subscriber = { version = "0.3", features = ["env-filter", "local-time"] }
windows = { version = "0.52", features = ["Win32_Foundation", "Win32_System_Threading"] }

[dev-dependencies]
bytes = "1"
