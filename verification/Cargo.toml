[package]
name = "huaweicloud_sdk_rust_obs"
version = "0.1.0"
edition = "2021"
publish = false

[dependencies]
async-trait = "0.1"
base64 = "*"
bytes = "1"
chrono = "0.4"
hmac-sha1 = "*"
md-5 = "*"
reqwest = { version = "*", default-features = false }
serde = { version = "1", features = ["derive"] }
serde_json = "1"
serde-xml-rs = "*"
thiserror = "*"
urlencoding = "2"
