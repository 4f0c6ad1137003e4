[package]
name = "vault_pipeline"
version = "0.1.0"
edition = "2021"
publish = false

[dependencies]
sha2 = "=0.11.0"
solana-sdk = "=3.0.0"
solana-pubkey = { version = "=3.0.0", features = ["curve25519"] }
tokio = { version = "*", features = ["macros", "rt-multi-thread", "time"] }
serde = { version = "*", features = ["derive"] }
serde_yaml = "*"
clap = { version = "*", features = ["derive"] }
anyhow = "*"
futures = "*"
futures-util = "*"
