[package]
name = "metalens"
version = "0.1.0"
edition = "2021"
publish = false

[dependencies]
serde = { version = "*", features = ["derive"] }
serde_json = "*"
tokio = { version = "*", features = ["full"] }
tokio-tungstenite = "*"
futures = "*"
tracing = "*"
tracing-subscriber = "*"
inkwell = "=0.10.0"
redbpf = { version = "=2.3.0", features = ["load"] }
