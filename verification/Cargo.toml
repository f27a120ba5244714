[package]
name = "hwp-core"
version = "0.1.0"
edition = "2021"
publish = false

[dependencies]
base64 = "0.22"
quick-xml = "0.37"
zip = { version = "2", default-features = false, features = ["deflate"] }
serde = { version = "1", features = ["derive"] }
serde_json = "1"
pyo3 = "0.23"
