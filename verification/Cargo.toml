[package]
name = "handpan_score"
version = "0.1.0"
edition = "2021"
publish = false

[dependencies]
quick-xml = "=0.31.0"
actix-web = "=4.15.0"
actix-files = "=0.7.0"
actix-multipart = "=0.8.5"
tokio = { version = "=1.53.2", features = ["full"] }
futures-util = "=0.3.34"
serde = { version = "=1.0.229", features = ["derive"] }
rand = "=0.10.3"
zip = { version = "=8.6.0", default-features = false, features = ["deflate"] }
env_logger = "=0.11.11"
log = "=0.4.34"
once_cell = "=1.21.4"
htmlescape = "=0.3.1"
