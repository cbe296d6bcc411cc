[package]
name = "amm_price_monitor"
version = "0.1.0"
edition = "2021"
publish = false

[dependencies]
tokio = { version = "1", default-features = false, features = ["rt-multi-thread", "macros", "sync", "time", "signal"] }
hex = "0.4"
carbon-core = "=1.0.0"
carbon-raydium-amm-v4-decoder = "=1.0.0"
carbon-meteora-dlmm-decoder = "=1.0.0"
orca_whirlpools_client = "=8.0.0"
anyhow = "1"
env_logger = { version = "0.11", default-features = false }
serde = { version = "1", features = ["derive"] }
