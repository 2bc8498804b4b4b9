[package]
name = "activity_pub"
version = "0.1.0"
edition = "2021"
publish = false

[dependencies]
activitypub = "0.1"
activitystreams = "0.7.0-alpha.20"
activitystreams-ext = "0.1.0-alpha.2"
array_tool = "1"
reqwest = { version = "0.12", default-features = false }
rocket = "0.5"
serde = { version = "1", features = ["derive"] }
serde_json = "1"
tokio = { version = "1", features = ["rt", "time"] }
tracing = "0.1"
