[package]
name = "pypi_proxy"
version = "0.1.0"
edition = "2021"
publish = false

[dependencies]
flate2 = "1"
serde = { version = "1", features = ["derive"] }
serde_json = "1"
tokio = { version = "1", features = ["macros", "rt-multi-thread"] }
axum = "0.6"
hyper = { version = "0.14", features = ["client", "http1", "server"] }
hyper-rustls = "0.24"
envy = "0.4"
aws-sdk-s3 = { version = "1", features = ["behavior-version-latest"] }
aws-credential-types = { version = "1", features = ["hardcoded-credentials"] }
