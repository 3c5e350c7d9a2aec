[package]
name = "entity_crud"
version = "0.1.0"
edition = "2021"
publish = false

[dependencies]
aws-config = "=1.12.0"
aws-credential-types = "=1.3.0"
aws_lambda_events = "=1.2.0"
aws-sigv4 = "=1.6.0"
http = "=1.5.0"
lambda_runtime = "=1.4.0"
serde = { version = "=1.0.229", features = ["derive"] }
serde_json = "=1.0.151"
sha2 = "=0.11.0"
sqlx = { version = "=0.9.0", default-features = false, features = ["postgres", "runtime-tokio", "tls-rustls", "derive"] }
tokio = { version = "=1.53.2", features = ["macros", "rt"] }
url = "=2.5.8"
