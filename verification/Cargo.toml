[package]
name = "edgee"
version = "0.1.0"
edition = "2021"
publish = false

[dependencies]
rand = "0.8"
addr = "0.15"
aes = "0.8"
cbc = { version = "0.1", features = ["alloc"] }
hex = "0.4"
regex = "1"
url = "2"
uuid = { version = "1", features = ["v4"] }
chrono = "0.4"
html-escape = "0.2"
ipnetwork = "0.20"
serde = { version = "1", features = ["derive"] }
serde_json = "1"
reqwest = { version = "0.12", default-features = false, features = ["json", "stream", "rustls-tls"] }
tokio = { version = "1", features = ["full"] }
hyper = { version = "1", features = ["full"] }
hyper-util = { version = "0.1", features = ["full"] }
http = "1"
http-body-util = "0.1"
bytes = "1"
clap = { version = "4", features = ["derive", "env"] }
cookie = "0.18"
anyhow = "1"
thiserror = "1"
tracing = "0.1"
tracing-subscriber = { version = "0.3", features = ["json"] }
json_comments = "0.2"
toml = "0.8"
futures = "0.3"
async-stream = "0.3"
