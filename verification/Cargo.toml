[package]
name = "realm_db_reader"
version = "0.1.0"
edition = "2021"
publish = false

[dependencies]
anyhow = "1"
byteorder = "1"
chrono = "0.4"
clap = { version = "4", features = ["derive"] }
hex = "0.4"
log = "0.4"
memmap2 = "0.9"
pretty_env_logger = "0.5"
thiserror = "2"
tracing = "0.1"
