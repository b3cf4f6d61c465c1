[package]
name = "sftp"
version = "0.1.0"
edition = "2021"
publish = false

[dependencies]
byteorder = "1.5"
shell-words = "1.1"
rustyline = "*"
russh = { version = "*", default-features = false, features = ["ring"] }
ssh2 = "0.9"
tokio = { version = "1", features = ["io-util", "rt", "sync"] }
