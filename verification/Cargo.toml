[package]
name = "eva_liquidator"
version = "0.1.0"
edition = "2021"
publish = false

[dependencies]
sha2 = "0.10.9"
spl-associated-token-account = "2.3.0"
solana-program = "1.18.26"
solana-sdk = "1.18.26"
crossbeam = "0.8.5"
anyhow = "1.0"
log = "0.4"
serde = { version = "1.0", features = ["derive"] }
serde_json = "1.0"
bincode = "1.3.3"
reqwest = { version = "0.11.27", default-features = false, features = ["blocking", "json"] }
