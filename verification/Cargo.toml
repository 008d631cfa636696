[package]
name = "neoshell"
version = "0.7.0"
edition = "2021"
publish = false

[dependencies]
zeroize = "1"
serde = { version = "1", features = ["derive"] }
serde_json = "1"
uuid = { version = "1", features = ["v4"] }
log = "0.4"
parking_lot = "0.12"
dirs = "5"
tokio = { version = "1", features = ["rt", "sync", "time"] }
iced_core = "0.13"
iced_futures = { version = "0.13", features = ["tokio"] }
arboard = { version = "3", default-features = false }
