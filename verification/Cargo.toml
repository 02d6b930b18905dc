[package]
name = "chromasync"
version = "0.1.0"
edition = "2021"
publish = false

[dependencies]
clap = "=4.6.7"
regex = "=1.13.1"
serde = "=1.0.229"
serde_json = "=1.0.154"
termcolor = "=1.4.1"
thiserror = "=1.0.69"
