[package]
name = "cgroup_metrics"
version = "0.1.0"
edition = "2021"
publish = false

[dependencies]
anyhow = "=1.0.104"
append-only-vec = "=0.1.10"
base64 = "=0.23.1"
clap = { version = "=4.6.7", features = ["derive", "env"] }
http = "=1.5.0"
hyper = { version = "=1.12.0", features = ["server", "http1"] }
hyper-util = { version = "=0.1.21", features = ["tokio"] }
log = "=0.4.34"
num = "=0.4.3"
pretty_env_logger = "=0.5.0"
prometheus_exporter_base = { version = "=1.4.0", default-features = false }
serde = { version = "=1.0.229", features = ["derive"] }
serde_json = "=1.0.154"
signal-hook = "=0.4.5"
tokio = { version = "=1.54.1", features = ["rt", "net", "macros"] }
