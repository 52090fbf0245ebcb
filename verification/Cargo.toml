[package]
name = "bisect_pipeline"
version = "0.1.0"
edition = "2021"
publish = false

[dependencies]
rusqlite = { version = "0.29", features = ["uuid"] }
uuid = { version = "1", features = ["v4", "serde"] }
chrono = { version = "0.4", features = ["serde"] }
serde = { version = "1", features = ["derive"] }
axum = "0.6"
tokio = { version = "1", features = ["full"] }
tower-http = { version = "0.4", features = ["trace"] }
tracing = "0.1"
tracing-subscriber = { version = "0.3", features = ["env-filter"] }
color-eyre = "0.6"
tempdir = "0.3"
