[package]
name = "s3grep"
version = "0.1.0"
edition = "2021"
publish = false

[dependencies]
anyhow = "*"
async-compression = { version = "*", features = ["tokio", "gzip"] }
aws-config = { version = "*", features = ["behavior-version-latest"] }
aws-sdk-s3 = "*"
aws-smithy-runtime-api = "*"
aws-smithy-types = "*"
colored = "*"
futures = "*"
indicatif = "*"
structopt = "*"
tokio = { version = "*", features = ["full"] }
