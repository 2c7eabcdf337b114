[package]
name = "viscacha"
version = "0.1.0"
edition = "2021"
publish = false

[dependencies]
uuid = { version = "1", features = ["v4"] }
serde = { version = "1", features = ["derive"] }
serde_json = "1"
axum = "0.8"
tokio = { version = "1", features = ["full"] }
rusqlite = { version = "*", features = ["bundled"] }
parking_lot = "0.12"
thiserror = "2"
utoipa = "5"
