[package]
name = "query_engine"
version = "0.1.0"
edition = "2021"
publish = false

[dependencies]
mysql_async = { version = "=0.37.1", default-features = false, features = ["minimal-rust"] }
reqwest = { version = "*", default-features = false, features = ["json"] }
serde = { version = "=1.0.229", features = ["derive"] }
serde_json = "=1.0.151"
chrono = "=0.4.45"
uuid = { version = "=1.27.0", features = ["v4"] }
tokio = { version = "=1.53.2", features = ["rt-multi-thread", "macros"] }
