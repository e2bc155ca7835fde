[package]
name = "qwen_studio_linux"
version = "0.1.0"
edition = "2021"
publish = false

[dependencies]
url = "2"
base64 = "0.22"
serde = { version = "1", features = ["derive"] }
serde_json = "1"
dirs = "*"
log = "0.4"
open = "5"
anyhow = "1"
tokio = { version = "1", features = ["fs", "process", "io-util", "sync", "time", "rt", "macros"] }
