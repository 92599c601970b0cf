[package]
name = "s3edit"
version = "0.1.0"
edition = "2021"
publish = false

[dependencies]
aws-config = "*"
aws-sdk-s3 = "*"
clap = { version = "*", features = ["derive"] }
eyre = "*"
tempfile = "*"
tokio = { version = "*", features = ["macros", "rt-multi-thread"] }
tokio-stream = "*"
tracing = "*"
tracing-subscriber = "*"
