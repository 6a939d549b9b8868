[package]
name = "stockpot"
version = "0.1.0"
edition = "2021"
publish = false

[dependencies]
anyhow = "1"
argon2 = "0.5"
async-trait = "0.1"
axum = "0.7"
chrono = "0.4"
clap = { version = "3.2", features = ["derive", "env"] }
dotenvy = "0.15"
env_logger = "0.10"
headers = "0.4"
jsonwebtoken = "9"
log = "0.4"
rand = "0.8"
secrecy = "0.8"
serde = { version = "1", features = ["derive"] }
serde_with = { version = "3", features = ["chrono_0_4"] }
sqlx = { version = "0.7", default-features = false, features = ["postgres", "runtime-tokio", "macros", "chrono"] }
thiserror = "1"
tokio = { version = "1", features = ["macros", "rt-multi-thread", "net"] }
tower = { version = "0.4", features = ["util"] }
tower-http = { version = "0.5", features = ["cors"] }
