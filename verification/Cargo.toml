[package]
name = "zenoh_extcap"
version = "0.1.0"
edition = "2021"
publish = false

[dependencies]
anyhow = "=1.0.104"
byteorder = "=1.5.0"
clap = { version = "=4.6.7", features = ["derive"] }
pcap-file = "=2.0.0"
tokio = { version = "=1.54.1", features = ["macros", "rt-multi-thread", "signal", "sync"] }
tokio-util = "=0.7.20"
zenoh = { version = "=1.10.1", default-features = false, features = ["transport_tcp", "transport_udp"] }
