[package]
name = "volatility_estimator"
version = "0.1.0"
edition = "2021"
publish = false

[dependencies]
rust_decimal = { version = "=1.43.0", features = ["maths"] }
chrono = { version = "=0.4.45", features = ["serde"] }
web3 = { version = "=0.19.0", default-features = false, features = ["ws-tokio"] }
hex = "=0.4.3"
serde = { version = "=1.0.229", features = ["derive"] }
tokio = { version = "=1.54.1", features = ["full"] }
futures = "=0.3.34"
tracing = "=0.1.44"
tracing-subscriber = "=0.3.23"
dotenv = "=0.15.0"
thiserror = "=1.0.69"
async-trait = "=0.1.92"
triggered = "=0.1.3"
kraken_ws_client = "=0.27.0"
anyhow = "=1.0.104"
csv = "=1.4.0"
config = "=0.13.4"
