[package]
name = "nexus"
version = "0.1.0"
edition = "2021"
publish = false

[dependencies]
solana-sdk = { version = "=2.3.1", default-features = false }
anyhow = "=1.0.104"
serde = { version = "=1.0.229", features = ["derive"] }
serde_json = "=1.0.154"
log = "=0.4.35"
linreg = "=0.2.0"
rustfft = "=6.4.1"
ndarray = "=0.15.6"
csv = "=1.4.0"
bytemuck = "=1.25.2"
num-bigint = "0.4"
num-traits = "0.2"
