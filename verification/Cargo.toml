[package]
name = "ttbackend"
version = "0.1.0"
edition = "2021"
publish = false

[dependencies]
sha2 = "=0.10.9"
jsonwebtoken = { version = "=11.1.0", features = ["rust_crypto"] }
rand = "=0.8.8"
serde = { version = "=1.0.229", features = ["derive"] }
serde_json = "=1.0.151"
chrono = "=0.4.45"
dotenvy = "=0.15.7"
axum = "=0.8.9"
axum-extra = { version = "=0.12.6", features = ["typed-header"] }
async-graphql = { version = "=7.2.1", features = ["chrono", "log"] }
async-graphql-axum = "=7.2.1"
sqlx = { version = "=0.9.0", default-features = false, features = ["postgres", "runtime-tokio", "chrono", "derive"] }
tokio = { version = "=1.53.2", features = ["full"] }
tracing = "=0.1.44"
tracing-subscriber = { version = "=0.3.23", features = ["env-filter"] }
tracing-appender = "=0.2.5"
tower-http = { version = "=0.7.1", features = ["cors", "fs"] }
http = "=1.5.0"
hyper = "=1.12.0"
printpdf = "=0.7.0"
base64 = "=0.22.1"
anyhow = "=1.0.104"
