[package]
name = "stats_ingest"
version = "0.1.0"
edition = "2021"
publish = false

[dependencies]
strsim = "0.11"
url = "2"
ulid = "1"
chrono = { version = "0.4", features = ["serde"] }
actix-web = "4"
actix-cors = "0.7"
actix-files = "0.6"
diesel = { version = "2", features = ["sqlite", "r2d2", "chrono"] }
dotenv = "0.15"
env_logger = "0.11"
log = "0.4"
maxminddb = "0.24"
once_cell = "1"
regex = "1"
serde = { version = "1", features = ["derive"] }
serde_json = "1"
tokio = { version = "1", features = ["full"] }
woothee = "0.13"
