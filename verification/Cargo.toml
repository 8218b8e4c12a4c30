[package]
name = "ipecho"
version = "0.1.0"
edition = "2021"
publish = false

[dependencies]
axum = "*"
clap-serde-derive = "*"
serde = { version = "*", features = ["derive"] }
serde_yml = "*"
tokio = { version = "*", features = ["rt-multi-thread", "macros", "net"] }
tracing = "*"
tracing-subscriber = "*"

[dev-dependencies]
serde_json = "*"
