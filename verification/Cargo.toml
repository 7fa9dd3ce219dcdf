[package]
name = "workingdb"
version = "0.1.0"
edition = "2021"
publish = false

[dependencies]
tokio = { version = "1", features = ["rt-multi-thread", "macros", "net", "io-util"] }
libc = "0.2"
backtrace = "0.3"
