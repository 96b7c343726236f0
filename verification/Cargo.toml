[package]
name = "sansrpc"
version = "0.1.0"
edition = "2021"
publish = false

[dependencies]
bincode = { version = "=2.0.1", features = ["serde"] }
bytes = "=1.12.1"
compio = { version = "=0.16.1", features = ["bytes", "dispatcher", "time"] }
futures = "=0.3.34"
quote = "=1.0.47"
serde = { version = "=1.0.229", features = ["derive"] }
serde_json = "=1.0.154"
syn = { version = "=2.0.119", features = ["full"] }
thiserror = "=2.0.21"
tokio = { version = "=1.54.1", features = ["io-util", "net", "rt", "time"] }
