[package]
name = "webhook_notify"
version = "0.1.0"
edition = "2021"
publish = false

[dependencies]
argh = "0.1"
hyper = { version = "0.14", features = ["server", "http1", "tcp"] }
notify-rust = "4"
tokio = { version = "1", features = ["rt-multi-thread", "macros", "signal"] }
