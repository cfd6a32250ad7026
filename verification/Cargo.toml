[package]
name = "nardo_proc"
version = "0.1.0"
edition = "2021"
publish = false

[dependencies]
aws-sdk-dynamodb = "*"
aws-sdk-sns = "*"
aws-sdk-sqs = "*"
eyre = "*"
log = "*"
