[package]
name = "win-etw-manifest"
version = "0.1.0"
edition = "2021"
publish = false

[dependencies]
xml-rs = "0.8"
uuid = "1"
proc-macro2 = "1"
quote = "1"
