[package]
name = "apix"
version = "0.1.0"
edition = "2021"
publish = false

[dependencies]
ansi_term = "0.12"
chrono = "0.4"
clap = { version = "4", features = ["derive"] }
env_logger = "0.11"
lazy_static = "1"
libsql = { version = "*", default-features = false, features = ["core"] }
log = "0.4"
mlua = { version = "0.10", features = ["lua54", "vendored"] }
semver = "1"
serde = { version = "1", features = ["derive"] }
serde_yaml = "0.9"
smol = "2"
tempfile = "3"
thiserror = "*"
toml = "*"
uuid = { version = "1", features = ["v4"] }
