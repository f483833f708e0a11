[package]
name = "metaforge"
version = "0.1.0"
edition = "2021"
publish = false

[dependencies]
anyhow = "*"
clap = { version = "*", features = ["derive"] }
serde = { version = "*", features = ["derive"] }
serde_yml = "*"
thiserror = "*"
tokio = { version = "*", features = ["rt", "macros"] }
