[package]
name = "triox"
version = "0.1.0"
edition = "2021"
publish = false

[dependencies]
jsonwebtoken = { version = "9", default-features = false }
serde_json = "1"
serde = { version = "1", features = ["derive"] }
actix-web = { version = "4", default-features = false, features = ["macros", "compress-gzip", "openssl"] }
actix-files = "0.6"
tokio = { version = "1", features = ["fs"] }
env_logger = "0.11"
log = "0.4"
mime = "0.3"
openssl = "0.10"
