[package]
name = "runtime_fmt"
version = "0.1.0"
edition = "2021"
publish = false

[dependencies]
unicode-xid = "0.2"
syn = "0.11"
quote = "0.3"
