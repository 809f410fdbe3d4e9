[package]
name = "maven_gateway"
version = "0.1.0"
edition = "2021"
publish = false

[dependencies]
aws-config = "=0.101.0"
aws-sdk-s3 = "=0.38.0"
data-encoding = "=2.11.1"
http = "=1.5.0"
lambda_http = "=1.3.2"
lambda_runtime = "=1.5.0"
regex-syntax = "=0.8.11"
string-builder = "=0.2.0"
tokio = { version = "=1.54.1", features = ["macros", "rt-multi-thread", "sync"] }
tracing = "=0.1.44"
tracing-subscriber = "=0.3.23"
