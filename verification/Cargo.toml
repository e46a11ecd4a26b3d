[package]
name = "fulfillment"
version = "0.1.0"
edition = "2021"
publish = false

[dependencies]
aws-config = "1"
aws-sdk-dynamodb = "1"
aws-sdk-ssm = "1"
lambda_runtime = "*"
reqwest = { version = "0.12", default-features = false, features = ["json"] }
serde = { version = "1", features = ["derive"] }
serde_json = "1"
time = "0.3"
tokio = { version = "1", features = ["macros", "rt-multi-thread", "sync", "time"] }
tracing = "0.1"
tracing-subscriber = { version = "0.3", features = ["env-filter", "json"] }
urlencoding = "2"
