[package]
name = "ostrich_protocol"
version = "0.1.0"
edition = "2021"
publish = false

[dependencies]
protobuf = "=3.0.0-alpha.13"
anyhow = "1"
log = "0.4"
tun = "0.5"
winapi = { version = "0.3", features = ["iphlpapi", "ipmib", "nldef", "winerror"] }
