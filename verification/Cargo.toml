[package]
name = "zeroclaw"
version = "0.1.0"
edition = "2021"
publish = false

[dependencies]
aes = "0.8"
anyhow = "1"
async-trait = "0.1"
base64 = "0.22"
directories = "6"
hex = "0.4"
image = { version = "0.25", default-features = false, features = ["jpeg", "png"] }
md5 = "0.7"
reqwest = { version = "0.12", default-features = false, features = ["json", "rustls-tls"] }
ring = "0.17"
serde = { version = "1", features = ["derive"] }
serde_json = "1"
tokio = { version = "1", features = ["fs", "io-std", "io-util", "macros", "process", "rt", "sync", "time"] }
tracing = "0.1"
urlencoding = "2"
uuid = { version = "1", features = ["v4"] }
which = "*"
