[package]
name = "arcrelay_transfer"
version = "0.1.0"
edition = "2021"
publish = false

[dependencies]
async-trait = "=0.1.92"
base64 = "=0.22.1"
fs2 = "=0.4.3"
hostname = "=0.4.2"
image = { version = "=0.25.6", default-features = false, features = ["png", "jpeg", "gif", "webp", "bmp"] }
prost = "=0.14.4"
quinn = "=0.11.12"
rand = "=0.8.8"
serde = { version = "=1.0.229", features = ["derive"] }
serde_json = "=1.0.154"
sha2 = "=0.11.1"
thiserror = "=2.0.21"
tokio = { version = "=1.54.1", features = ["full"] }
tokio-util = { version = "=0.7.20", features = ["rt"] }
tracing = "=0.1.44"
ts-rs = "=12.0.1"
unicode-normalization = "=0.1.26"
uuid = { version = "=1.29.0", features = ["v4"] }

[dev-dependencies]
tempfile = "=3.27.0"
