[package]
name = "lapin"
version = "4.11.0"
edition = "2021"
publish = false

[dependencies]
amq-protocol = { version = "*", default-features = false }
async-rs = { version = "*", default-features = false }
async-trait = "*"
backon = { version = "*", default-features = false }
event-listener = "*"
flume = "*"
futures-core = "*"
futures-io = "*"
tracing = "*"
