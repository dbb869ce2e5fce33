[package]
name = "chat_server"
version = "0.1.0"
edition = "2021"
publish = false

[dependencies]
base64 = "0.21"
sha1_smol = "1"
mime_guess = "2"
rand = "0.8"
uuid = { version = "1", features = ["v4"] }
tokio = { version = "1", features = ["full"] }
