[package]
name = "chain_ingest"
version = "0.1.0"
edition = "2021"
publish = false

[dependencies]
anyhow = "*"
bigdecimal = "*"
dotenv = "*"
futures = "*"
num-traits = "*"
serde = { version = "*", features = ["derive"] }
serde_json = "*"
sqlx = { version = "*", features = ["runtime-tokio-rustls", "postgres", "bigdecimal"], default-features = false }
tokio = { version = "*", features = ["rt-multi-thread", "macros", "time"] }
tokio-stream = "*"
tracing = "*"
tracing-subscriber = { version = "*", features = ["env-filter"] }
