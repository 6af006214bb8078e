[package]
name = "todo_repository"
version = "0.1.0"
edition = "2021"
publish = false

[dependencies]
anyhow = "1"
axum = "0.4"
http-body = "0.4"
hyper = "0.14"
serde = { version = "1", features = ["derive"] }
sqlx = { version = "0.5", features = ["runtime-tokio-rustls", "any", "postgres"] }
validator = { version = "0.14", features = ["derive"] }
