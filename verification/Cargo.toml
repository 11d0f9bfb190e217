[package]
name = "netlink-packet-xfrm"
version = "0.1.0"
edition = "2021"
publish = false

[dependencies]
netlink-packet-core = "=0.9.0"
