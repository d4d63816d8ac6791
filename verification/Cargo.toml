[package]
name = "sr_core"
version = "0.1.0"
edition = "2021"
publish = false

[dependencies]
regex = "=1.13.1"
serde = { version = "=1.0.229", features = ["derive"] }
serde_json = "=1.0.154"
anyhow = "=1.0.104"
clap = { version = "=4.6.7", features = ["derive"] }
tokio = { version = "=1.54.1", features = ["rt-multi-thread", "macros", "sync", "process"] }
crossterm = "=0.28.1"
indicatif = "=0.17.11"
agentspec-provider = "=0.7.1"
agentspec-ui = "=0.8.1"
