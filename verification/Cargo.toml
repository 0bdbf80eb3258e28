[package]
name = "chaser_cf"
version = "0.2.1"
edition = "2021"
publish = false

[dependencies]
chaser-oxide = "*"
futures = "0.3"
rand = "0.9"
tokio = { version = "1", features = ["macros", "rt-multi-thread", "sync", "time"] }
tracing = "0.1"
