[package]
name = "nexus_children"
version = "0.1.0"
edition = "2021"
publish = false

[dependencies]
futures = "0.3"
snafu = "0.6"
