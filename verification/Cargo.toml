[package]
name = "fred"
version = "0.1.0"
edition = "2021"
publish = false

[dependencies]
bytes = "1"
bytes-utils = "0.1"
redis-protocol = "4.1"
sha1 = "0.10"
float-cmp = "0.9"
serde_json = "1"
