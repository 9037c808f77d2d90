[package]
name = "rbspy"
version = "0.1.0"
edition = "2021"
publish = false

[dependencies]
anyhow = "1"
clap = { version = "4", features = ["derive"] }
flate2 = "1"
libc = "0.2"
nix = { version = "0.29", features = ["user"] }
proc-maps = "*"
remoteprocess = { version = "*", default-features = false }
serde = { version = "1", features = ["derive"] }
serde_json = "1"
thiserror = "1"
