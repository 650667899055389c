[package]
name = "integrity_watcher"
version = "0.1.0"
edition = "2021"
publish = false

[dependencies]
redb = "*"
chrono = "*"
sha2 = "*"
log = "*"
env_logger = "*"
clap = { version = "*", features = ["derive"] }
dirs = "*"
thiserror = "*"
serde = { version = "*", features = ["derive"] }
tokio = { version = "*", features = ["rt-multi-thread", "macros", "fs", "time", "sync"] }
reqwest = { version = "*", default-features = false, features = ["json", "rustls-tls"] }
