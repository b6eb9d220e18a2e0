[package]
name = "todo_api"
version = "0.1.0"
edition = "2021"
publish = false

[dependencies]
chrono = "0.4"
axum = "0.8"
tokio = { version = "1", features = ["macros", "net", "rt-multi-thread"] }
serde = { version = "1", features = ["derive"] }
serde_json = "1"
