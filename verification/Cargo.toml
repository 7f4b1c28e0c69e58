[package]
name = "fastqscan"
version = "0.1.0"
edition = "2021"
publish = false

[dependencies]
clap = "4"
flate2 = "1"
serde_json = "1"
