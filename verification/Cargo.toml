[package]
name = "rustp2p_transport"
version = "0.1.0"
edition = "2021"
publish = false

[dependencies]
bytes = "=1.12.1"
log = "=0.4.34"
pnet_packet = "=0.35.0"
rustp2p = "0.2"
tcp_ip = "=0.1.10"
tokio = { version = "=1.54.1", features = ["rt"] }
