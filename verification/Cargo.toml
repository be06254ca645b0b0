[package]
name = "magi-core"
version = "4.1.0"
edition = "2021"
publish = false

[dependencies]
sha2 = "=0.10.9"
caseless = "=0.2.2"
unicode-normalization = "=0.1.26"
serde = { version = "=1.0.229", features = ["derive"] }
serde_json = "=1.0.154"
thiserror = "=2.0.21"
tracing = "0.1"
