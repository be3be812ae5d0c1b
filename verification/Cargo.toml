[package]
name = "qjs_regjit"
version = "0.1.0"
edition = "2021"
publish = false

[dependencies]
quickjs-rusty = "*"
