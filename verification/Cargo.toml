[package]
name = "lox"
version = "0.1.0"
edition = "2021"
publish = false

[dependencies]
dialoguer = "0.8"
log = "0.4"
pretty_env_logger = "0.4"
structopt = "0.3"
