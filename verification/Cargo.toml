[package]
name = "kv_service"
version = "0.1.0"
edition = "2021"
publish = false

[dependencies]
axum = "*"
prost = "*"
prost-types = "*"
rocksdb = "*"
tokio = { version = "*", features = ["full"] }
tower = { version = "*", features = ["full"] }
tower-http = { version = "*", features = ["compression-gzip", "trace"] }
tracing = "*"
tracing-subscriber = { version = "*", features = ["env-filter"] }
uuid = { version = "*", features = ["v4"] }
