[package]
name = "hooks"
version = "0.1.0"
edition = "2021"
publish = false

[dependencies]
geojson = { version = "0.24", default-features = false }
serde = { version = "1", features = ["derive"] }
serde_json = "1"
aws_lambda_events = { version = "*", default-features = false, features = ["sqs"] }
lambda_runtime = "*"
tokio = { version = "1", features = ["macros", "rt-multi-thread", "time", "sync"] }
reqwest = { version = "0.12", default-features = false, features = ["rustls-tls"] }
