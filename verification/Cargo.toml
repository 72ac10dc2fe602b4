[package]
name = "sshcore"
version = "0.1.0"
edition = "2021"
publish = false

[dependencies]
russh = "*"
russh-sftp = "*"
tokio = { version = "*", features = ["net", "io-util", "fs", "rt", "macros", "rt-multi-thread", "sync"] }
parking_lot = "*"
once_cell = "*"
