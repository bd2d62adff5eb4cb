[package]
name = "tcp_tun"
version = "0.1.0"
edition = "2021"
publish = false

[dependencies]
etherparse = "0.14"
tun-tap = "0.1"
