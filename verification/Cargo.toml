[package]
name = "lyrix"
version = "26.9.0"
edition = "2021"
publish = false

[dependencies]
memchr = "2"
base64 = "0.22"
md5 = "0.7"
aes = "0.8"
ecb = { version = "0.1", features = ["alloc"] }
hex = "0.4"
serde = { version = "1", features = ["derive"] }
serde_json = "1"
thiserror = "2"
async-trait = "0.1"
futures-util = "0.3"
dirs = "6"
tokio = { version = "1", features = ["rt", "macros", "time", "net", "sync"] }
tokio-tungstenite = "0.24"
reqwest = { version = "0.12", default-features = false, features = ["json"] }
