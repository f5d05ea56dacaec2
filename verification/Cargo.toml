[package]
name = "aria2-rs"
version = "0.1.0"
edition = "2021"
publish = false

[dependencies]
base64 = "0.22"
futures-util = { version = "0.3", features = ["sink"] }
parking_lot = "0.12"
serde = { version = "1", features = ["derive"] }
serde_json = "1"
serde_with = "3"
small-map = "0.1"
smallvec = { version = "1", features = ["serde"] }
smol_str = { version = "0.2", features = ["serde"] }
thiserror = "1"
tokio = { version = "1", features = ["rt", "rt-multi-thread", "sync", "time", "macros", "net"] }
tokio-tungstenite = "0.21"
tracing = "0.1"
uuid = { version = "1", features = ["v4"] }
