[package]
name = "zfskit"
version = "0.1.0"
edition = "2021"
publish = false

[dependencies]
regex = "1"
serde = { version = "1", features = ["derive"] }
serde_json = "1"
thiserror = "2"
tokio = { version = "1", features = ["process", "io-util", "rt", "macros", "sync", "time"] }
async-trait = "0.1"
zeroize = "1"
