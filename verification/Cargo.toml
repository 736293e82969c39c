[package]
name = "rpc_cache_proxy"
version = "0.1.0"
edition = "2021"
publish = false

[dependencies]
serde_json = "*"
actix-web = { version = "*", default-features = false, features = ["macros"] }
reqwest = { version = "*", default-features = false, features = ["json"] }
redis = "*"
clap = { version = "*", features = ["derive"] }
log = "*"
env_logger = "*"
lazy_static = "*"
