[package]
name = "pwd_dl_zkp"
version = "0.1.0"
edition = "2021"
rust-version = "1.95"
publish = false

[dependencies]
env_logger = "=0.11.11"
ntex = { version = "=3.12.3", features = ["tokio"] }
ntex-cors = "=3.2.1"
# Not called from this crate: ntex takes any ntex-httparse from 2.1.0 on, and
# the releases after it need a newer compiler than rust-version allows.
ntex-httparse = "=2.1.0"
num-bigint = { version = "=0.4.8", features = ["rand"] }
num-traits = "=0.2.19"
once_cell = "=1.21.4"
openssl = "=0.10.81"
rand = "=0.8.8"
serde = { version = "=1.0.229", features = ["derive"] }
serde_json = "=1.0.154"
sled = "=0.34.7"
wasm-bindgen = { version = "=0.2.129", features = ["serde-serialize"] }
