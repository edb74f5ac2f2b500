[package]
name = "traceroute_extender"
version = "0.1.0"
edition = "2021"
publish = false

[dependencies]
pnet_packet = "*"
log = "0.4"
clap = "2"
simplelog = "*"
tokio = { version = "1", features = ["rt-multi-thread", "macros", "io-util"] }
tokio-tun = "*"
