[package]
name = "messenger"
version = "0.1.0"
edition = "2021"
publish = false

[dependencies]
dotenv = "0.15"
env_logger = "0.11"
log = "0.4"
prost = "0.13"
redis = { version = "0.25", features = ["tokio-comp"] }
tokio = { version = "1", features = ["io-std", "io-util", "macros", "rt-multi-thread", "sync"] }
tokio-stream = "0.1"
tonic = "0.12"
