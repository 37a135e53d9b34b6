[package]
name = "vote_checker"
version = "0.1.0"
edition = "2021"
publish = false

[dependencies]
anyhow = "1"
bincode = "1.3"
bs58 = "0.5"
clap = { version = "4", features = ["derive"] }
colored = "3"
indicatif = "0.17"
rand = "0.9"
reqwest = { version = "0.12", default-features = false, features = ["json", "rustls-tls"] }
serde = { version = "1", features = ["derive"] }
serde_json = "1"
solana-program = "2.2"
tokio = { version = "1", features = ["full"] }
