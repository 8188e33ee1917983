[package]
name = "hcor"
version = "0.1.0"
edition = "2021"
publish = false

[dependencies]
uuid = { version = "0.8", features = ["v4", "serde"] }
chrono = { version = "0.4", features = ["serde"] }
rand = "0.7"
serde = { version = "1", features = ["derive"] }
serde_json = "1"
serde_yaml = "0.8"
bincode = "1"
zstd = "0.5"
lazy_static = "1"
ngrammatic = "0.3"
walkdir = "2"
yaml-merge-keys = { version = "0.4", features = ["serde_yaml"] }
log = "0.4"
pretty_env_logger = "0.4"
actix = "0.10"
awc = "2"
actix-codec = "0.3"
bytes = "0.5"
futures = "0.3"
tokio = { version = "0.2", features = ["macros", "rt-core"] }

[dev-dependencies]
