[package]
name = "heartbeatc3"
version = "0.1.0"
edition = "2021"
publish = false

[dependencies]
anyhow = "1"
embedded-svc = "*"
esp-idf-svc = "*"
log = "0.4"
rosc = "*"
