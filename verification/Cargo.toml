[package]
name = "scan_manager"
version = "0.1.0"
edition = "2021"
publish = false

[dependencies]
console = "*"
ctrlc = "*"
indicatif = "*"
tokio = { version = "*", features = ["rt-multi-thread", "time", "macros"] }
uuid = { version = "*", features = ["v4"] }
