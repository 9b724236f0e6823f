[package]
name = "keyed_mailbox"
version = "0.1.0"
edition = "2021"

[dependencies]
async-trait = "0.1"
tokio = { version = "1", default-features = false, features = ["rt"] }
