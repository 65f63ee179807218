[package]
name = "fuzzysearch"
version = "0.1.0"
edition = "2021"
publish = false

[dependencies]
bb8 = "=0.7.1"
bb8-postgres = "=0.7.0"
bytes = "=1.12.1"
futures = "=0.3.34"
futures-util = "=0.3.34"
hyper = { version = "=0.14.32", features = ["server", "http1", "tcp"] }
image = "=0.23.14"
img_hash = "=3.2.0"
log = "=0.4.34"
opentelemetry = { version = "=0.16.0", features = ["rt-tokio"] }
opentelemetry-jaeger = { version = "=0.15.0", features = ["rt-tokio"] }
prometheus = "=0.13.4"
serde = { version = "=1.0.229", features = ["derive"] }
tokio = { version = "=1.54.1", features = ["macros", "rt-multi-thread"] }
tokio-postgres = "=0.7.18"
tracing = "=0.1.44"
tracing-opentelemetry = "=0.15.0"
tracing-subscriber = { version = "=0.2.25", features = ["json"] }
warp = "=0.3.7"
