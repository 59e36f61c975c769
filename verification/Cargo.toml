[package]
name = "airplay"
version = "0.1.0"
edition = "2021"
publish = false

[dependencies]
chacha20poly1305 = "0.10"
hkdf = "0.12"
sha2 = "0.10"
num-bigint = "0.4"
getrandom = "0.3"
uuid = { version = "1", features = ["v4"] }
subtle = "2"
alac-encoder = "*"
plist = "1"
serde = { version = "1", features = ["derive"] }
serde_bytes = "0.11"
tokio = { version = "1", features = ["full"] }
tracing = "0.1"
crossbeam-channel = "0.5"
mdns-sd = "*"
async-stream = "0.3"
async-trait = "0.1"
futures-core = "0.3"
rubato = "0.16"
fastrand = "2"
spin_sleep = "1"
libc = "0.2"
thiserror = "2"
zeroize = { version = "1", features = ["derive"] }
