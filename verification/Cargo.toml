[package]
name = "perf_client"
version = "0.1.0"
edition = "2021"
publish = false

[dependencies]
bytes = "1"
bytesize = "1"
clap = { version = "3", features = ["derive"] }
env_logger = "0.9"
log = "0.4"
s2n-quic = { version = "=1.91.0", features = ["provider-tls-s2n"] }
s2n-quic-core = { version = "=0.91.0", features = ["testing"] }
tokio = { version = "1", features = ["full"] }
