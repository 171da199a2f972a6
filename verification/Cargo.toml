[package]
name = "btc_indexer"
version = "0.1.0"
edition = "2021"
publish = false

[dependencies]
hex = "0.4"
bitcoin = "0.32"
bitcoin_hashes = "0.14"
bcrypt = "0.15"
chrono = "0.4"
axum = "0.7"
tokio = { version = "1", features = ["full"] }
sqlx = { version = "0.7", default-features = false, features = ["runtime-tokio", "postgres", "chrono", "migrate", "json"] }
reqwest = { version = "0.12", default-features = false, features = ["json"] }
jsonwebtoken = "9"
serde = { version = "1", features = ["derive"] }
serde_json = "1"
tracing = "0.1"
tracing-subscriber = "0.3"
dotenv = "0.15"
eyre = "0.6"
rand = "0.8"
async-trait = "0.1"
