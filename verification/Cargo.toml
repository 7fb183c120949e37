[package]
name = "tracker"
version = "0.1.0"
edition = "2021"
publish = false

[dependencies]
chrono = "*"
clap = "*"
dirs = "*"
elasticsearch = { version = "=8.5.0-alpha.1", default-features = false, features = ["rustls-tls"] }
glob = "*"
serde_json = "*"
sqlite = "*"
tempfile = "*"
tokio = { version = "*", features = ["rt", "macros"] }
