[package]
name = "kcl"
version = "0.1.0"
edition = "2021"
publish = false

[dependencies]
base64 = "0.13"
serde = { version = "1", features = ["derive"] }
serde_json = "1"
serde_dynamo = "*"
aws_lambda_events = { version = "*", default-features = false, features = ["dynamodb"] }
