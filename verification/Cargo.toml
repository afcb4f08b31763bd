[package]
name = "catalog_browser"
version = "0.1.0"
edition = "2021"
publish = false

[dependencies]
reqwest = { version = "0.11", features = ["blocking", "json"] }
serde_json = "1"
smallvec = "1"
tracing = "0.1"
