[package]
name = "blacksmith_core"
version = "0.1.0"
edition = "2021"
publish = false

[dependencies]
base64 = "=0.22.1"
md-5 = "=0.10.6"
chrono = { version = "=0.4.45", default-features = false, features = ["std", "clock"] }
unicode-segmentation = "=1.13.3"
emojis = "=0.6.4"
serde = { version = "=1.0.229", features = ["derive"] }
serde_json = "=1.0.154"
pulldown-cmark = { version = "=0.13.6", default-features = false, features = ["html"] }
url = "=2.5.8"
csv = "1"
uuid = { version = "1", features = ["v4"] }
