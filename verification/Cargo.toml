[package]
name = "torwell84"
version = "0.1.0"
edition = "2021"
publish = false

[dependencies]
regex = "1"
rand = "0.8"
urlencoding = "2"
reqwest = { version = "0.12", default-features = false, features = ["rustls-tls", "json"] }
governor = "0.6"
tor-geoip = "*"
hdrhistogram = "7"
chrono = "0.4"
serde = { version = "1", features = ["derive"] }
serde_json = "1"
thiserror = "1"
anyhow = "1"
log = "0.4"
once_cell = "1"
tokio = { version = "1", features = ["full"] }
directories = "5"
sysinfo = "0.29"
clap = { version = "4", features = ["derive"] }
base64 = "0.22"
blake3 = "1"
toml = "0.8"
rustls = { version = "0.23", default-features = false, features = ["ring", "std", "tls12"] }
rustls-pemfile = "2"
crossbeam-channel = "0.5"
crossbeam-deque = "0.8"
num_cpus = "1"
futures = "0.3"
async-trait = "0.1"
