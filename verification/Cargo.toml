[package]
name = "kms_capture"
version = "0.1.0"
edition = "2021"
publish = false

[dependencies]
rusqlite = { version = "*", features = ["bundled"] }
serde_yaml = "*"
shellexpand = "*"
pathdiff = "*"
chrono = "*"
serde = { version = "*", features = ["derive"] }
serde_json = "*"
directories = "*"
once_cell = "*"
axum = "*"
tokio = { version = "*", features = ["rt-multi-thread", "net", "macros"] }
tower-http = { version = "*", features = ["cors"] }
