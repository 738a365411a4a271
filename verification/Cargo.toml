[package]
name = "voice2text"
version = "0.1.0"
edition = "2021"
publish = false

[dependencies]
hound = "3.5"
sha2 = "0.10"
serde = { version = "1", features = ["derive"] }
serde_json = "1"
reqwest = { version = "0.12", features = ["json", "multipart"] }
chrono = "0.4"
uuid = { version = "1", features = ["v4"] }
machine-uid = "*"
