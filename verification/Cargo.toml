[package]
name = "subparse"
version = "0.1.0"
edition = "2021"
publish = false

[dependencies]
base64 = "0.22"
url = "2"
urlencoding = "2"
md5 = "0.7"
serde_json = "1"
reqwest = { version = "0.12", default-features = false, features = ["blocking"] }
clap = { version = "4", features = ["derive"] }
dirs = "*"
tracing = "0.1"
tracing-subscriber = "0.3"
