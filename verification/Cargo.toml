[package]
name = "gntp"
version = "0.1.16"
edition = "2021"
publish = false

[dependencies]
uuid = { version = "1", features = ["v4"] }
clap = { version = "4", features = ["derive"] }
clap-version-flag = "*"
