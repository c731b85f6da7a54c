[package]
name = "sqs_worker"
version = "0.1.0"
edition = "2021"
publish = false

[dependencies]
anyhow = "1"
config = { version = "0.10", default-features = false }
futures = "0.3"
log = "0.4"
rusoto_core = { version = "0.45", default-features = false, features = ["rustls"] }
rusoto_credential = "0.45"
rusoto_sqs = { version = "0.45", default-features = false, features = ["rustls"] }
rusoto_sts = { version = "0.45", default-features = false, features = ["rustls"] }
serde = { version = "1", features = ["derive"] }
tokio = { version = "0.2", features = ["full"] }
tracing-subscriber = { version = "0.2", features = ["json"] }
