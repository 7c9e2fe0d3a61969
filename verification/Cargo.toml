[package]
name = "perp_market"
version = "0.1.0"
edition = "2021"
publish = false

[dependencies]
bincode = "1.3"
candid = "0.10"
ic-cdk = "0.18"
ic-cdk-timers = "0.12"
ic-stable-structures = "0.6"
serde = { version = "1", features = ["derive"] }
sha2 = "0.10"
