[package]
name = "dayz-community-hub-core"
version = "0.1.0"
edition = "2021"
publish = false

[dependencies]
regex = "=1.13.1"
urlencoding = "=2.1.3"
roxmltree = "=0.21.2"
serde = { version = "=1.0.229", features = ["derive"] }
serde_json = "=1.0.154"
base64 = "0.22"
minisign-verify = "0.2"
zip = { version = "*", default-features = false, features = ["deflate"] }
