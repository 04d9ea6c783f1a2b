[package]
name = "remote_transfer"
version = "0.1.0"
edition = "2021"
publish = false

[dependencies]
dirs = "*"
rand = "*"
russh = "*"
tokio = { version = "1", features = ["rt", "rt-multi-thread", "time", "net", "macros"] }
