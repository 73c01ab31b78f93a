[package]
name = "maui"
version = "0.1.0"
edition = "2021"
publish = false

[dependencies]
bytes = "1"
serde = { version = "1", features = ["derive"] }
tokio = { version = "1", features = ["sync", "net", "rt", "macros", "io-util"] }
tokio-util = { version = "0.7", features = ["codec"] }
futures-util = "0.3"
