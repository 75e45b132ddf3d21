[package]
name = "herdr_gui"
version = "0.1.0"
edition = "2021"
publish = false

[dependencies]
serde = { version = "=1.0.229", features = ["derive"] }
serde_json = "=1.0.154"
thiserror = "=2.0.21"
libloading = "=0.9.0"
portable-pty = "=0.9.0"
tokio = { version = "=1.54.1", features = ["rt-multi-thread"] }
agent-client-protocol = { version = "=5.0.0", features = ["process"] }
