[package]
name = "trokk"
version = "0.1.0"
edition = "2021"
publish = false

[dependencies]
image = "*"
webp = "*"
serde = { version = "*", features = ["derive"] }
serde_json = "*"
tokio = { version = "*", features = ["rt-multi-thread", "macros", "fs", "io-util"] }
aws-sdk-s3 = "*"
