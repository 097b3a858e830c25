[package]
name = "flowshare_core"
version = "0.1.0"
edition = "2021"
publish = false

[dependencies]
base64 = "0.22"
crab_nat = "*"
dirs = "*"
fs2 = "0.4"
futures = "0.3"
hmac = "0.12"
igd-next = { version = "*", features = ["aio_tokio"] }
netdev = "*"
quinn = { version = "0.11", default-features = false, features = ["runtime-tokio", "rustls-ring"] }
rand_core = { version = "0.6", features = ["getrandom"] }
rustls = { version = "0.23", default-features = false, features = ["ring", "std"] }
serde = { version = "1", features = ["derive"] }
serde_json = "1"
sha2 = "0.10"
socket2 = "*"
subtle = "2"
tokio = { version = "1", features = ["full"] }
tokio-util = "0.7"
uuid = { version = "1", features = ["v4"] }
zeroize = "1"
