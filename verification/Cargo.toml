[package]
name = "second_anchor"
version = "0.1.0"
edition = "2021"
publish = false

[dependencies]
anchor-lang = "*"
anchor-spl = "*"
bytemuck = "*"
ruint = "*"
