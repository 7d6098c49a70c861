[package]
name = "etherage"
version = "0.1.0"
edition = "2021"
publish = false

[dependencies]
heapless = "*"
tokio = { version = "1", features = ["full"] }
futures = "0.3"
futures-concurrency = "*"
tokio-timerfd = "*"
libc = "0.2"
packed_struct = "*"
thread-priority = "*"
chrono = "0.4"
