[package]
name = "lightbulb"
version = "0.1.0"
edition = "2021"
publish = false

[dependencies]
hex = "*"
http = "*"
sha2 = "*"
tokio = { version = "*", features = ["macros", "rt-multi-thread", "sync", "time"] }
