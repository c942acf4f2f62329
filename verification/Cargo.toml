[package]
name = "aaa"
version = "0.1.0"
edition = "2021"
publish = false

[dependencies]
anyhow = "1"
aws-config = "1"
aws-credential-types = "1"
clap = { version = "4", features = ["derive"] }
colored = "2"
dirs = "5"
inquire = "0.7"
tokio = { version = "1", features = ["rt-multi-thread", "macros"] }
