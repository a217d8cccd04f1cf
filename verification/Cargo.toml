[package]
name = "heart"
version = "0.1.0"
edition = "2021"
publish = false

[dependencies]
csv = "1"
rand = "0.8"
sysinfo = "0.29"
dotenv = "0.15"
rocket = { version = "0.5", features = ["json"] }
