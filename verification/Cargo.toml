[package]
name = "finances"
version = "0.1.0"
edition = "2021"
publish = false

[dependencies]
clap = "2"
dialoguer = "*"
home = "*"
numberkit = "*"
serde_json = "1"
