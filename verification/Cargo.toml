[package]
name = "sysyc"
version = "0.1.0"
edition = "2021"
publish = false

[dependencies]
koopa = "0.0"
lalrpop-util = "0.20"
