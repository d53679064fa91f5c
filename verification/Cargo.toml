[package]
name = "nakamoto_chain"
version = "0.1.0"
edition = "2021"
publish = false

[dependencies]
bitcoin = "0.27"
nonempty = "*"
thiserror = "1"
argh = "0.1"
log = "0.4"
