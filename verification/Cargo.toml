[package]
name = "hackattic"
version = "0.1.0"
edition = "2021"
publish = false

[dependencies]
base64 = "0.13"
flate2 = "1"
md5 = "0.7"
regex = "1"
serde = { version = "1", features = ["derive"] }
serde_json = "1"
sha2 = "0.10"
tungstenite = "*"
ureq = "2"
url = "2"
