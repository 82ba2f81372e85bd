[package]
name = "patch_hub"
version = "0.1.0"
edition = "2021"
publish = false

[dependencies]
base64 = "*"
regex = "*"
chrono = "*"
serde = { version = "*", features = ["derive"] }
serde_json = "*"
serde-xml-rs = "*"
thiserror = "*"
tokio = { version = "*", features = ["sync", "rt", "macros"] }
tracing = "*"
ureq = "*"
