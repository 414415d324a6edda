[package]
name = "oto_core"
version = "0.1.0"
edition = "2021"
publish = false

[dependencies]
dirs = "*"
zip = { version = "*", default-features = false, features = ["deflate"] }
serde = { version = "1", features = ["derive"] }
serde_json = "1"
reqwest = { version = "0.12", default-features = false, features = ["rustls-tls"] }
tokio = { version = "1", features = ["rt-multi-thread", "macros", "time"] }
rusqlite = { version = "*", features = ["bundled"] }
log = "0.4"
