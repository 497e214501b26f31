[package]
name = "rshare_net"
version = "0.1.0"
edition = "2021"
publish = false

[dependencies]
anyhow = "1"
bincode = { version = "=2.0.1", features = ["serde"] }
bytes = "=1.12.1"
hostname = "0.4"
if-addrs = "0.13"
libc = "0.2"
quinn = "=0.11.12"
rcgen = "=0.14.10"
rustls = "=0.23.46"
serde = { version = "1", features = ["derive"] }
serde_json = "1"
sha2 = "=0.10.9"
tempfile = "3"
tokio = { version = "1", features = ["full"] }
tracing = "0.1"
uuid = { version = "=1.29.0", features = ["v4", "serde"] }
windows-sys = { version = "=0.59.0", features = ["Win32_Foundation", "Win32_Storage_FileSystem"] }
