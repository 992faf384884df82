[package]
name = "bigtiny"
version = "0.1.0"
edition = "2021"
publish = false

[dependencies]
async-trait = "=0.1.92"
axum = "=0.8.9"
bytes = "=1.12.1"
chrono = { version = "=0.4.45", default-features = false, features = ["std", "clock"] }
dashmap = "=6.2.1"
encoding_rs = "=0.8.44"
futures = "=0.3.34"
ipnet = "=2.12.2"
jsonschema = { version = "=0.60.2", default-features = false }
llama-cpp-2 = "=0.1.160"
minijinja = "=2.24.0"
once_cell = "=1.21.4"
reqwest = { version = "=0.12.28", default-features = false, features = ["json", "stream"] }
rmcp = { version = "=3.8.0", default-features = false, features = ["client", "transport-child-process", "transport-streamable-http-client-reqwest"] }
serde = { version = "=1.0.229", features = ["derive"] }
serde_json = "=1.0.154"
serde_yaml = "=0.9.34"
sqlx = { version = "=0.8.6", default-features = false, features = ["runtime-tokio", "sqlite", "macros"] }
thiserror = "=2.0.21"
tokio = { version = "=1.54.1", features = ["full"] }
tokio-cron-scheduler = "=0.15.1"
tokio-stream = { version = "=0.1.19", features = ["time"] }
tracing = "=0.1.44"
uuid = { version = "=1.29.0", features = ["v4"] }
