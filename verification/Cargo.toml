[package]
name = "contrafact"
version = "0.2.0"
edition = "2021"
publish = false

[dependencies]
arbitrary = "=1.5.0"
either = "=1.19.0"
num = "=0.4.3"
once_cell = "=1.21.4"
rand = "0.7"
