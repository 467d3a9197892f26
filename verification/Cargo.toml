[package]
name = "vpn"
version = "0.1.0"
edition = "2021"
publish = false

[dependencies]
anyhow = "=1.0.104"
argon2 = { version = "=0.5.3", features = ["std"] }
async-trait = "=0.1.92"
bytes = "=1.12.1"
clap = { version = "=4.6.7", features = ["derive"] }
futures = "=0.3.34"
ipnet = "=2.12.2"
libc = "=0.2.191"
prost = "=0.14.4"
quinn = { version = "=0.11.12", default-features = false, features = ["runtime-tokio", "rustls-aws-lc-rs"] }
route_manager = { version = "=0.2.17", default-features = false }
rpassword = "=7.5.4"
rustls = { version = "=0.23.46", default-features = false, features = ["std", "aws_lc_rs"] }
rustls-pki-types = { version = "=1.15.1", features = ["std"] }
serde = { version = "=1.0.229", features = ["derive"] }
sqlx = { version = "=0.8.6", default-features = false, features = ["runtime-tokio", "sqlite"] }
sysinfo = { version = "=0.39.6", default-features = false, features = ["disk", "network", "system"] }
thiserror = "=2.0.21"
tokio = { version = "=1.54.1", features = ["full"] }
tokio-util = { version = "=0.7.20", features = ["codec"] }
toml = "=1.1.8"
tracing = "=0.1.44"
tracing-subscriber = { version = "=0.3.23", default-features = false, features = ["env-filter", "fmt", "std"] }
tun-rs = { version = "=2.8.16", default-features = false, features = ["async_tokio"] }
