[package]
name = "blutgang"
version = "0.4.0"
edition = "2021"
publish = false

[dependencies]
memchr = "2"
blake3 = { version = "1", features = ["pure"] }
url = "2"
serde = { version = "1", features = ["derive"] }
serde_json = "1"
tokio = { version = "1", features = ["rt-multi-thread", "macros", "sync", "net", "time"] }
hyper = { version = "1", features = ["server", "http1"] }
hyper-util = { version = "0.1", features = ["tokio"] }
http-body-util = "0.1"
hyper-tungstenite = "0.15"
tokio-tungstenite = "0.24"
futures-util = "0.3"
reqwest = { version = "0.12", default-features = false, features = ["json"] }
toml = "0.8"
clap = { version = "4", features = ["derive"] }
sled = "0.34"
jsonwebtoken = "9"
rand = "0.8"
tracing = "0.1"
