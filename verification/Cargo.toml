[package]
name = "aliyunddns"
version = "0.1.0"
edition = "2021"
publish = false

[dependencies]
clap = "2"
log = "0.4"
simplelog = "0.12"
