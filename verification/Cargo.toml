[package]
name = "waystone"
version = "0.1.0"
edition = "2021"
publish = false

[dependencies]
axum = { version = "*", features = ["ws"] }
clap = { version = "*", features = ["derive"] }
rand = "0.8"
reqwest = { version = "*", default-features = false }
serde_yml = "*"
tokio = { version = "*", features = ["macros", "net", "rt-multi-thread"] }
tracing = "*"
tracing-subscriber = "*"
