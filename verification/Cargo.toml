[package]
name = "rs_scan"
version = "0.1.0"
edition = "2021"
publish = false

[dependencies]
bgpkit-broker = "*"
bgpkit-parser = "*"
crossbeam-channel = "*"
ipnet = "*"
threadpool = "*"
