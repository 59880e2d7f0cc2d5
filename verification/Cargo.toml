[package]
name = "tauri_plugin_sql"
version = "0.1.0"
edition = "2021"
publish = false

[dependencies]
base64 = "0.13"
futures = "0.3"
serde = { version = "1", features = ["derive"] }
serde_json = "1"
sqlx = { version = "0.6", default-features = false, features = ["runtime-tokio-rustls", "sqlite", "mysql", "postgres", "json", "migrate"] }
tokio = { version = "1", features = ["sync"] }
