[package]
name = "axum_api"
version = "0.1.0"
edition = "2021"
publish = false

[dependencies]
gix = { version = "=0.90.0", default-features = false, features = ["sha1", "blocking-network-client", "blocking-http-transport-reqwest-rust-tls"] }
image = { version = "=0.25.10", default-features = false, features = ["jpeg", "png", "webp"] }
bcrypt = "=0.19.3"
chrono = "=0.4.45"
serde = { version = "=1.0.229", features = ["derive"] }
serde_json = "=1.0.154"
anyhow = "=1.0.104"
thiserror = "=2.0.21"
log = "=0.4.35"
env_logger = "=0.11.11"
dotenvy = "=0.15.7"
tokio = { version = "=1.54.1", features = ["rt-multi-thread", "macros", "sync", "time", "net"] }
axum = { version = "=0.8.9", features = ["multipart"] }
tower-http = { version = "=0.7.1", features = ["cors", "trace"] }
jsonwebtoken = { version = "=11.1.0", features = ["aws_lc_rs"] }
ulid = "=3.0.0"
uuid = { version = "=1.29.0", features = ["v4"] }
bytes = "=1.12.1"
futures-util = "=0.3.34"
async-trait = "=0.1.92"
names = { version = "=0.14.0", default-features = false }
tempfile = "=3.27.0"
object_store = { version = "=0.14.2", features = ["aws", "http"] }
reqwest = { version = "=0.12.28", default-features = false, features = ["json", "rustls-tls"] }
arangors = "=0.6.0"
