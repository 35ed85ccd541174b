[package]
name = "task_dispatcher"
version = "0.1.0"
edition = "2021"
publish = false

[dependencies]
anyhow = "1"
chrono = "0.4"
crossbeam-channel = "0.5"
rand = "0.8"
