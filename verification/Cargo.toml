[package]
name = "multipool"
version = "0.2.0"
edition = "2021"
publish = false

[dependencies]
crossbeam = "0.8"
