[package]
name = "eoka"
version = "0.1.0"
edition = "2021"
publish = false

[dependencies]
blake3 = "1"
version-compare = "0.2"
rusqlite = "*"
reqwest = { version = "*", default-features = false, features = ["stream"] }
tokio = { version = "1", features = ["full"] }
futures-util = "0.3"
indicatif = "*"
colored = "*"
human_bytes = "*"
chrono = "0.4"
os_pipe = "1"
lazy_static = "1"
