[package]
name = "frame_interp"
version = "0.1.0"
edition = "2021"
publish = false

[dependencies]
regex = "1"
linya = "*"
log = "0.4"
pretty_env_logger = "*"
reqwest = "*"
tokio = { version = "1", features = ["full"] }
zip = { version = "*", default-features = false, features = ["deflate"] }
