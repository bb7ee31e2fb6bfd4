[package]
name = "kite_protocol"
version = "0.1.0"
edition = "2021"
publish = false

[dependencies]
bincode = "1"
bytes = "0.5"
zstd = "0.5"
rand = "0.7"
serde = { version = "1", features = ["derive"] }
tokio = { version = "0.2", features = ["full"] }
chrono = "0.4"
thiserror = "1"
log = "0.4"
