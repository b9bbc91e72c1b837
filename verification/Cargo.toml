[package]
name = "dispatch_client"
version = "0.1.0"
edition = "2021"
publish = false

[dependencies]
lazy_static = "=1.5.1"
log = "=0.4.34"
rand = "=0.8.8"
simple_logger = "=1.16.0"
