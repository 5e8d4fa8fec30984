[package]
name = "budget"
version = "0.1.0"
edition = "2021"
publish = false

[dependencies]
anyhow = "*"
argon2 = { version = "*", features = ["std"] }
axum = "*"
dotenv = "*"
libsql = { version = "*", default-features = false, features = ["core"] }
serde = { version = "*", features = ["derive"] }
time = "*"
tokio = { version = "*", features = ["macros", "rt-multi-thread", "net", "sync"] }
tower-http = { version = "*", features = ["cors"] }
tower-sessions = { version = "*", features = ["memory-store", "signed"] }
uuid = { version = "*", features = ["v4"] }
