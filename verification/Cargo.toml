[package]
name = "mm0-rs"
version = "0.1.0"
edition = "2021"
publish = false

[dependencies]
crossbeam = "=0.8.5"
futures = { version = "=0.3.34", features = ["thread-pool"] }
lsp-server = "=0.10.0"
lsp-types = "=0.97.0"
serde = { version = "=1.0.229", features = ["derive"] }
serde_json = "=1.0.154"
simplelog = "=0.12.2"
