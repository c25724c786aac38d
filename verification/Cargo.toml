[package]
name = "cf_access_sidecar"
version = "0.1.0"
edition = "2021"
publish = false

[dependencies]
arc-swap = "=1.9.3"
axum = { version = "=0.6.20", features = ["headers"] }
base64 = "=0.13.1"
convert_case = "=0.6.0"
hyper = { version = "=0.14.32", features = ["client", "http1", "http2", "server", "tcp"] }
hyper-tls = "=0.5.0"
openidconnect = { version = "=3.5.0", default-features = false }
openssl-probe = "=0.1.6"
serde = { version = "=1.0.229", features = ["derive"] }
serde_json = "=1.0.154"
serde_yaml = "=0.9.34"
tokio = { version = "=1.54.1", features = ["macros", "rt", "time"] }
tower-http = { version = "=0.4.4", features = ["trace"] }
tracing = "=0.1.44"
tracing-subscriber = { version = "=0.3.23", features = ["json", "env-filter"] }
