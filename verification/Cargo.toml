[package]
name = "actix_service"
version = "0.1.0"
edition = "2021"
publish = false

[dependencies]
futures = "=0.3.34"
derive_more = "=0.99.20"
lazy_static = "=1.5.1"
log = "=0.4.34"
num_cpus = "=1.17.0"
parking_lot = "=0.12.5"
threadpool = "=1.8.1"
tokio-executor = { version = "=0.2.0-alpha.6", features = ["current-thread"] }
tokio-net = "=0.2.0-alpha.6"
tokio-timer = "=0.3.0-alpha.6"
