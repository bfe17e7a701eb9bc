[package]
name = "benchmark_operator"
version = "0.1.0"
edition = "2021"
publish = false

[dependencies]
askama = "0.12"
axum = "0.6"
chrono = { version = "0.4", features = ["serde"] }
dotenv = "0.15"
futures = "0.3"
hyper = { version = "0.14", features = ["client", "http1", "tcp"] }
k8s-openapi = { version = "0.18", features = ["v1_26", "schemars"] }
kube = { version = "0.83", default-features = false, features = ["client", "rustls-tls", "runtime", "derive"] }
prost = "0.11"
regex = "1"
schemars = "0.8"
serde = { version = "1", features = ["derive"] }
serde_json = "1"
serde_yaml = "0.9"
sqlx = { version = "0.6", features = ["runtime-tokio-rustls", "postgres", "chrono"] }
tokio = { version = "1", features = ["full"] }
tonic = "0.9"
tracing = "0.1"
tracing-subscriber = "0.3"
