[package]
name = "article_repo"
version = "0.1.0"
edition = "2021"
publish = false

[dependencies]
serde = { version = "=1.0.229", features = ["derive"] }
sqlx = { version = "=0.9.0", default-features = false, features = ["sqlite", "runtime-tokio"] }

[dev-dependencies]
tokio = { version = "=1.53.2", features = ["rt"] }
