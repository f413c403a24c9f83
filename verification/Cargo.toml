[package]
name = "ssmgr"
version = "0.1.0"
edition = "2021"
publish = false

[dependencies]
uuid = { version = "1", features = ["v4", "serde"] }
serde = { version = "1", features = ["derive"] }
serde_json = "1"
axum = "0.7"
tower-http = { version = "0.6", features = ["cors", "fs"] }
tokio = { version = "1", features = ["full"] }
clap = { version = "4", features = ["derive"] }
tracing = "0.1"
tracing-subscriber = "0.3"
walkdir = "2"
symphonia = { version = "0.5", features = ["all"] }
reqwest = { version = "0.12", default-features = false, features = ["json"] }
ratatui = "0.29"
crossterm = "0.28"
rodio = { version = "0.19", default-features = false, features = ["symphonia-all"] }
