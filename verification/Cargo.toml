[package]
name = "chrome-for-testing"
version = "0.1.0"
edition = "2021"
publish = false

[dependencies]
reqwest = { version = "0.12", default-features = false }
serde_json = "1"
thiserror = "2"
time = { version = "0.3", features = ["parsing"] }
url = "2"
