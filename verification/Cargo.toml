[package]
name = "bucket_lister"
version = "0.1.0"
edition = "2021"
publish = false

[dependencies]
aws-sdk-s3 = "*"
aws-config = { version = "*", features = ["behavior-version-latest"] }
tokio = { version = "*", features = ["macros", "rt-multi-thread"] }
