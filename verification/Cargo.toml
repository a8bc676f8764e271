[package]
name = "task_expander"
version = "0.1.0"
edition = "2021"
publish = false

[dependencies]
dotenvy = "0.15"
rustc-hash = "2"
shell-words = "1"
