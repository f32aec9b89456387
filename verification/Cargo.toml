[package]
name = "compile_fail"
version = "0.1.0"
edition = "2021"
publish = false

[dependencies]
build-plan = "*"
env_logger = "0.4"
log = "0.4"
serde = { version = "1", features = ["derive"] }
serde_derive = "1"
serde_json = "1"
tempdir = "0.3"
termcolor = "1"
