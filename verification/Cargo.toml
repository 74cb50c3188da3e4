[package]
name = "exploit_engine"
version = "0.1.0"
edition = "2021"
publish = false

[dependencies]
rand = "0.9"
rand_distr = "0.5"
uuid = { version = "1", features = ["v4"] }
web-time = "1"
