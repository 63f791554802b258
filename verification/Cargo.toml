[package]
name = "confgraph"
version = "0.1.0"
edition = "2021"
publish = false

[dependencies]
hcl-rs = "*"
serde_json = "*"
serde = { version = "*", features = ["derive"] }
serde_yaml = "*"
openapiv3 = "*"
yaml-hash = "*"
sha256 = "*"
thiserror = "*"
trustfall = "*"
