[package]
name = "crawl_core"
version = "0.1.0"
edition = "2021"
publish = false

[dependencies]
base64 = "*"
crossbeam-channel = "*"
http_req = "*"
lz4_flex = "*"
num_cpus = "*"
tl = "*"
url = "*"
