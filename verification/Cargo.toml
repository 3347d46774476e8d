[package]
name = "jigsaw"
version = "0.1.0"
edition = "2021"
publish = false

[dependencies]
rand = "=0.8.8"
ring = "=0.17.14"
hex = "=0.4.3"
urlencoding = "=2.1.3"
uuid = { version = "=1.29.1", features = ["v4", "serde"] }
chrono = "=0.4.45"
url = { version = "=2.5.8", features = ["serde"] }
tokio = { version = "=1.54.1", features = ["full"] }
axum = { version = "=0.6.20", features = ["ws"] }
redis = { version = "=0.23.5", features = ["tokio-comp", "aio"] }
teloxide = { version = "=0.12.2", default-features = false, features = ["macros", "rustls", "ctrlc_handler"] }
image = "=0.24.9"
tiny-skia = "=0.11.4"
rayon = "=1.12.0"
serde = { version = "=1.0.229", features = ["derive"] }
serde_json = "=1.0.154"
rmp-serde = "=1.3.1"
figment = { version = "=0.10.19", features = ["toml", "env"] }
dotenvy = "=0.15.7"
env_logger = "=0.10.2"
eyre = "=0.6.14"
thiserror = "=1.0.69"
futures = "=0.3.34"
tracing = "=0.1.44"
tracing-subscriber = "=0.3.23"
tower-http = { version = "=0.4.4", features = ["fs"] }
log = "=0.4.35"
dptree = "=0.3.0"
async-trait = "=0.1.92"
takecell = "=0.1.1"
