[package]
name = "apt_cmd"
version = "0.5.0"
edition = "2021"
publish = false

[dependencies]
anyhow = "1"
as-result = "*"
async-fetcher = "*"
async-process = "*"
async-stream = "0.3"
deb-version = "*"
derive_more = "0.99"
futures = "0.3"
futures-util = "0.3"
hex = "0.4"
md-5 = "0.10"
procfs = "*"
sha1 = "0.10"
sha2 = "0.10"
thiserror = "1"
tokio = { version = "1", features = ["fs", "io-util", "macros", "process", "rt", "sync", "time"] }
tokio-stream = { version = "0.1", features = ["io-util"] }
