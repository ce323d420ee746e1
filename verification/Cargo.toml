[package]
name = "rate-limiter-rs"
version = "0.1.0"
edition = "2021"
publish = false

[dependencies]
redis = { version = "0.27", default-features = false }
actix-web = { version = "4", default-features = false, features = ["macros"] }
config = { version = "0.14", default-features = false }
derive_more = { version = "1", features = ["display"] }
futures-util = "0.3"
log = "0.4"
opentelemetry = "0.27"
opentelemetry_sdk = { version = "0.27", features = ["rt-tokio-current-thread"] }
opentelemetry-otlp = { version = "0.27", default-features = false, features = ["grpc-tonic", "trace"] }
opentelemetry-semantic-conventions = "0.27"
serde = { version = "1", features = ["derive"] }
thiserror = "1"
tokio = { version = "1", features = ["macros", "rt-multi-thread"] }
tracing = "0.1"
tracing-actix-web = "0.7"
tracing-bunyan-formatter = "0.3"
tracing-opentelemetry = "0.28"
tracing-subscriber = { version = "0.3", features = ["env-filter", "registry"] }
