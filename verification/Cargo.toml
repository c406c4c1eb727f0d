[package]
name = "momoka_core"
version = "0.1.0"
edition = "2021"
publish = false

[dependencies]
dotenv = "*"
env_logger = "*"
log = "*"
futures = "*"
tokio = { version = "*", features = ["full"] }
scylla = "*"
mysql = "*"
r2d2 = "*"
r2d2_mysql = "*"
r2d2_redis = "*"
serde = { version = "*", features = ["derive"] }
serde_cbor = "*"
