[package]
name = "attendance_bot"
version = "0.1.0"
edition = "2021"
publish = false

[dependencies]
chrono = "0.4"
hex = "0.4"
hmac = "0.12"
sha2 = "0.10"
serde_urlencoded = "0.7"
serde = { version = "1", features = ["derive"] }
serde_json = "1"
reqwest = { version = "*", default-features = false, features = ["json", "rustls-tls"] }
tokio = { version = "1", features = ["macros", "rt-multi-thread"] }
lambda_http = "*"
lambda_runtime = "*"
aws_lambda_events = "*"
aws-config = "*"
aws-sdk-sqs = "*"
tracing-subscriber = { version = "*", features = ["env-filter"] }
