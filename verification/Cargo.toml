[package]
name = "fusion_htlc"
version = "0.1.0"
edition = "2021"

[dependencies]
sha2 = "=0.10.9"
hex = "=0.4.3"
serde_json = "=1.0.154"
near-sdk = { version = "=5.29.1", features = ["unit-testing", "legacy"] }
