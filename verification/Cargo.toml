[package]
name = "pms_slave"
version = "0.1.0"
edition = "2021"
publish = false

[dependencies]
k256 = { version = "=0.13.4", features = ["ecdh"] }
rand = "=0.8.8"
blake3 = "*"
tinytemplate = "*"
serde = { version = "*", features = ["derive"] }
uuid = { version = "*", features = ["serde", "v4"] }
toml = "=0.8.23"
async-std = { version = "=1.13.2", features = ["attributes"] }
async-compression = { version = "=0.4.50", features = ["brotli", "futures-io"] }
async-tar = "=0.6.1"
futures = "*"
log = "*"
log4rs = "*"
lazy_static = "*"
tempfile = "*"
redis = { version = "=0.27.6", features = ["async-std-comp"] }
num_cpus = "*"
fast_log = "*"
