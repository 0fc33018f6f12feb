[package]
name = "question_bank"
version = "0.1.0"
edition = "2021"
publish = false

[dependencies]
axum = "=0.8.9"
dotenv = "=0.15.0"
lazy_static = "=1.5.1"
reqwest = { version = "=0.13.5", default-features = false, features = ["json"] }
serde = { version = "=1.0.229", features = ["derive"] }
serde_json = "=1.0.151"
sqlx = { version = "=0.9.0", default-features = false, features = ["postgres", "runtime-tokio"] }
tokio = { version = "=1.53.2", features = ["macros", "rt-multi-thread", "net"] }
warp = { version = "=0.4.3", features = ["server"] }
