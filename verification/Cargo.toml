[package]
name = "fennec"
version = "0.1.0"
edition = "2021"
publish = false

[dependencies]
serde = { version = "=1.0.229", features = ["derive"] }
serde_json = "=1.0.154"
dirs = "=7.0.0"
chrono = "=0.4.45"
tokio = { version = "=1.54.1", features = ["time"] }
reqwest = { version = "=0.12.28", default-features = false, features = ["json", "rustls-tls"] }
accessibility-sys = "=0.2.0"
core-foundation = "=0.10.1"
macos-accessibility-client = "=0.0.2"
objc2 = "0.6"
objc2-app-kit = "0.3"
objc2-foundation = "0.3"
