[package]
name = "rustycord"
version = "0.1.0"
edition = "2021"
publish = false

[dependencies]
reqwest = { version = "*", default-features = false }
tokio = { version = "*", features = ["rt-multi-thread", "macros", "net", "sync", "time"] }
tokio-tungstenite = "*"
futures-util = "*"
serde = { version = "*", features = ["derive"] }
serde_json = "*"
serde_repr = "*"
serde-aux = { version = "*", default-features = false }
log = "*"
rustc_version_runtime = "*"
