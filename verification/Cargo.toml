[package]
name = "erniebot_rs"
version = "0.1.0"
edition = "2021"
publish = false

[dependencies]
serde_json = "1"
url = "2"
serde = { version = "1", features = ["derive"] }
ureq = { version = "2", default-features = false }
reqwest = { version = "0.12", default-features = false, features = ["blocking", "json"] }
tokio = { version = "1", default-features = false, features = ["sync", "rt"] }
tokio-stream = { version = "0.1", default-features = false }
base64 = "0.22"
image = { version = "0.25", default-features = false, features = ["png"] }
