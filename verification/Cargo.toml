[package]
name = "ferogram"
version = "0.1.0"
edition = "2021"
publish = false

[dependencies]
regex = "1"
url = "2"
grammers-client = "*"
tokio = { version = "1", features = ["rt-multi-thread", "sync", "signal", "time"] }
async-trait = "0.1"
futures = "0.3"
bincode = "2"
rpassword = "7"
log = "0.4"
