[package]
name = "bybe_db"
version = "0.1.0"
edition = "2021"
publish = false

[dependencies]
regex = "1"
itertools = "*"
capitalize = "*"
serde = { version = "1", features = ["derive"] }
serde_json = "1"
sqlx = { version = "*", default-features = false, features = ["runtime-tokio", "postgres", "migrate"] }
tokio = { version = "1", features = ["macros", "rt-multi-thread"] }
git2 = { version = "*", default-features = false }
dotenvy = "*"
anyhow = "1"
tracing = "*"
tracing-subscriber = { version = "*", features = ["env-filter"] }
tracing-appender = "*"
