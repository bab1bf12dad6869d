[package]
name = "p2p_solana_handshake"
version = "0.1.0"
edition = "2021"
publish = false

[dependencies]
tokio = { version = "1", features = ["rt-multi-thread", "macros", "net", "time"] }
clap = { version = "4", features = ["derive"] }
tracing = "0.1"
tracing-subscriber = { version = "0.3", features = ["env-filter"] }
tracing-bunyan-formatter = "0.3"
anyhow = "1"
rand = "0.8"
solana-sdk = "*"

[dev-dependencies]
borsh = "1"
