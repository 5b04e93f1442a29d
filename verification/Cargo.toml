[package]
name = "jwt_auth_delegate"
version = "0.1.0"
edition = "2021"
publish = false

[dependencies]
anyhow = "1"
axum = "0.6"
futures-util = "0.3"
http = "0.2"
http-body = "0.4"
hyper = { version = "0.14", features = ["client", "http1", "http2", "tcp"] }
hyper-tls = "0.5"
jwt = "0.16"
log = "0.4"
time = "0.3"
tokio = { version = "1", features = ["rt", "time", "macros"] }
tower-http = { version = "0.4", features = ["auth"] }
