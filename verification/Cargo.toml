[package]
name = "forum_api"
version = "0.1.0"
edition = "2021"
publish = false

[dependencies]
actix-files = "0.6"
actix-web = "4"
actix-web-prom = "0.8"
chrono = { version = "0.4", features = ["serde"] }
env_logger = "0.11"
futures = "0.3"
futures-util = "0.3"
opentelemetry = "0.21"
opentelemetry-otlp = "0.14"
opentelemetry_sdk = { version = "0.21", features = ["rt-tokio"] }
prometheus = "0.13"
scylla = "0.13"
serde = { version = "1", features = ["derive"] }
serde_json = "1"
tokio = { version = "1", features = ["full"] }
tracing = "0.1"
tracing-opentelemetry = "0.22"
tracing-subscriber = { version = "0.3", features = ["env-filter"] }
utoipa = { version = "4", features = ["actix_extras", "uuid", "chrono"] }
utoipa-swagger-ui = { version = "6", features = ["actix-web"] }
uuid = { version = "1", features = ["v4", "serde"] }
