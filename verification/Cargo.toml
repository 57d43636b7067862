[package]
name = "kinesis"
version = "0.1.0"
edition = "2021"
publish = false

[dependencies]
serde_json = "*"
serde = { version = "*", features = ["derive"] }
reqwest = { version = "*", default-features = false, features = ["json"] }
tokio = { version = "*", features = ["rt", "time", "macros"] }
rusqlite = { version = "*", features = ["bundled"] }
