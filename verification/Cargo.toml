[package]
name = "mcim_rust_sync"
version = "0.1.0"
edition = "2021"
publish = false

[dependencies]
backon = "=1.6.0"
bson = { version = "=3.1.0", features = ["chrono-0_4"] }
chrono = { version = "=0.4.45", features = ["serde"] }
clap = { version = "=4.6.7", features = ["derive"] }
croner = "=4.0.2"
futures = "=0.3.34"
governor = "=0.10.4"
http-body-util = "=0.1.5"
hyper = { version = "=1.12.0", features = ["server", "http1"] }
hyper-util = { version = "=0.1.21", features = ["tokio"] }
mongodb = { version = "=3.9.1", features = ["bson-3"] }
prometheus-client = "=0.25.2"
redis = { version = "=1.8.1", features = ["tokio-comp", "connection-manager"] }
reqwest = { version = "=0.12.28", default-features = false, features = ["json", "rustls-tls"] }
serde = { version = "=1.0.229", features = ["derive"] }
serde_json = "=1.0.154"
serde_with = "=3.24.0"
thiserror = "=2.0.21"
tikv-jemalloc-ctl = "=0.7.0"
tikv-jemallocator = "=0.7.0"
tokio = { version = "=1.54.1", features = ["full"] }
tracing = "=0.1.44"
tracing-subscriber = { version = "=0.3.23", features = ["env-filter"] }
