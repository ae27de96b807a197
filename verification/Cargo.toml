[package]
name = "simple_assembler"
version = "0.1.0"
edition = "2021"
publish = false

[dependencies]
anyhow = "1"
clap = { version = "4", features = ["derive"] }
log = "0.4"
nom = "7"
num = "0.4"
pretty_env_logger = "*"
thiserror = "1"
