[package]
name = "peer_session"
version = "0.1.0"
edition = "2021"
publish = false

[dependencies]
anyhow = "1"
chrono = "0.4"
futures-util = "0.3"
sqlx = { version = "0.8", default-features = false, features = ["sqlite", "runtime-tokio", "chrono", "derive"] }
tokio = { version = "1", features = ["sync", "rt", "time", "macros"] }
tokio-util = "0.7"
