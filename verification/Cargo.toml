[package]
name = "userlist"
version = "0.1.0"
edition = "2021"
publish = false

[dependencies]
axum = "*"
tokio = { version = "*", features = ["macros", "net", "rt-multi-thread"] }
sqlx = { version = "*", features = ["runtime-tokio", "sqlite"] }
tower-http = { version = "*", features = ["cors"] }

[dev-dependencies]
serde_json = "*"
