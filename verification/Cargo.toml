[package]
name = "qa_store"
version = "0.1.0"
edition = "2021"
publish = false

[dependencies]
uuid = { version = "1", features = ["v4"] }
serde = { version = "1", features = ["derive"] }
serde_json = "1"
tokio = { version = "1", features = ["macros", "rt-multi-thread"] }
tower = "0.4"
tower-http = { version = "0.4", features = ["compression-gzip", "compression-deflate", "limit"] }
tower-service = "0.3"
tracing = "0.1"
tracing-subscriber = "0.3"
http = "0.2"
hyper = "0.14"
axum = "0.6"
lambda_http = "0.8"
aws-config = "*"
aws-sdk-dynamodb = "*"
aws-smithy-http = "*"
