[package]
name = "fastvlm"
version = "0.1.0"
edition = "2021"
publish = false

[dependencies]
anyhow = "1"
dirs = "5"
env_logger = "0.11"
futures-util = "0.3"
image = { version = "0.25", default-features = false, features = ["png", "jpeg"] }
ndarray = "0.16"
ort = { version = "=2.0.0-rc.10", default-features = false, features = ["std", "ndarray", "load-dynamic"] }
reqwest = { version = "0.12", default-features = false, features = ["stream", "rustls-tls"] }
tokenizers = { version = "*", default-features = false, features = ["fancy-regex"] }
tokio = { version = "1", features = ["rt-multi-thread", "fs", "io-util"] }
tracing = "0.1"
