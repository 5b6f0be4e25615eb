[package]
name = "aws_dynamo_derive"
version = "0.1.0"
edition = "2021"
publish = false

[dependencies]
proc-macro2 = "=1.0.107"
quote = "=1.0.47"
syn = { version = "=2.0.119", features = ["full"] }
aws-sdk-dynamodb = { version = "=1.134.0", default-features = false }
