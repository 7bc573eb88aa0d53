[package]
name = "evm_decompiler"
version = "0.1.0"
edition = "2021"
publish = false

[dependencies]
petgraph = "*"
sha3 = "*"
hex = "*"
serde = { version = "*", features = ["derive"] }
serde_json = "*"
clap = { version = "*", features = ["derive"] }
axum = "*"
tokio = { version = "*", features = ["rt-multi-thread", "macros", "net"] }
tower-http = { version = "*", features = ["cors"] }
anyhow = "*"
thiserror = "*"
tracing-subscriber = { version = "*", features = ["env-filter"] }
