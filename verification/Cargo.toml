[package]
name = "auth_service"
version = "0.1.0"
edition = "2021"
publish = false

[dependencies]
axum = "=0.8.9"
serde = { version = "=1.0.229", features = ["derive"] }
serde_json = { version = "=1.0.154", features = ["raw_value"] }
serde_with = { version = "=3.24.0", default-features = false, features = ["std"] }
jsonwebtoken = "=9.3.1"
bson = "=2.15.0"
chrono = { version = "=0.4.45", features = ["serde"] }
argon2 = "=0.5.3"
rand = "=0.8.8"
validator = "=0.20.0"
tokio = { version = "=1.54.1", features = ["full"] }
tracing = "=0.1.44"
tracing-subscriber = { version = "=0.3.23", features = ["env-filter"] }
dotenvy = "=0.15.7"
async-trait = "=0.1.92"
futures = "=0.3.34"
tower-http = { version = "=0.6.11", features = ["cors", "trace"] }
utoipa = "=5.5.0"
utoipa-swagger-ui = { version = "=9.0.2", features = ["axum", "vendored"] }
mongodb = { version = "=3.9.1", default-features = false, features = ["compat-3-0-0", "rustls-tls"] }
sqlx = { version = "=0.8.6", default-features = false, features = ["runtime-tokio", "mysql", "chrono", "migrate"] }
redis = { version = "=0.27.6", features = ["tokio-comp", "connection-manager"] }
rdkafka = "=0.36.2"
tokio-cron-scheduler = "=0.13.0"
