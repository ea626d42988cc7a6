[package]
name = "dimmer"
version = "0.1.0"
edition = "2021"
publish = false

[dependencies]
anyhow = "1"
glob = "0.3"
structopt = "0.3"
thiserror = "*"
