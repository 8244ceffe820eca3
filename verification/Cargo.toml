[package]
name = "aliyundrive_fuse"
version = "0.1.0"
edition = "2021"
publish = false

[dependencies]
anyhow = "*"
bytes = "=1.12.1"
clap = { version = "=4.6.7", features = ["derive", "env"] }
fuser = "=0.18.0"
libc = "*"
oneshot = { version = "=0.2.1", features = ["std"] }
openssl-probe = "*"
parking_lot = "*"
reqwest = { version = "=0.12.28", default-features = false, features = ["blocking", "json", "rustls-tls"] }
serde = { version = "*", features = ["derive"] }
tracing = "*"
tracing-subscriber = "*"
