[package]
name = "pathnorm"
version = "0.1.0"
edition = "2021"
publish = false

[dependencies]
path-absolutize = "*"
anyhow = "*"
clap = { version = "*", features = ["derive"] }
thiserror = "*"
tokio = { version = "*", features = ["macros", "rt-multi-thread"] }
tracing = "*"
tracing-subscriber = "*"
