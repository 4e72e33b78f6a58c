[package]
name = "simple_proxy"
version = "0.1.0"
edition = "2021"
publish = false

[dependencies]
getopts = "0.2"
log = "0.3"
time = "0.1"
