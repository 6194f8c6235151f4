[package]
name = "rs_ping"
version = "0.1.0"
edition = "2021"
publish = false

[dependencies]
ctrlc = "=3.5.2"
dns-lookup = "=4.0.2"
socket2 = { version = "=0.6.5", features = ["all"] }
