[package]
name = "lwm2m_registry"
version = "0.1.0"
edition = "2021"
publish = false

[dependencies]
anyhow = "1"
serde = { version = "1", features = ["derive"] }
serde-xml-rs = "*"
tokio = { version = "1", features = ["fs", "io-util"] }
walkdir = "2"
