[package]
name = "metis_router"
version = "0.1.0"
edition = "2021"
publish = false

[dependencies]
dashmap = "*"
rust_decimal = "*"
rust_decimal_macros = "*"
serde = { version = "*", features = ["derive"] }
serde_json = "*"
tokio = { version = "*", features = ["rt-multi-thread", "macros", "time"] }
futures = "*"
log = "*"
env_logger = "*"
anyhow = "*"
