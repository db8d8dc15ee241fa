[package]
name = "matrix-crypto-core"
version = "0.1.0"
edition = "2021"
publish = false

[dependencies]
matrix-sdk-common = "=0.18.0"
matrix-sdk-crypto = "=0.18.0"
serde = { version = "=1.0.229", features = ["derive"] }
serde_json = { version = "=1.0.154", features = ["raw_value"] }
thiserror = "=2.0.21"

[dev-dependencies]
tokio = { version = "=1.54.1", features = ["rt"] }
