[package]
name = "hbbs"
version = "0.1.0"
edition = "2021"
publish = false

[dependencies]
ipnetwork = "0.20"
base64 = "0.21"
sodiumoxide = "0.2"
chrono = "0.4"
clap = "4"
rust-ini = "0.19"
lazy_static = "1"
local-ip-address = "0.5"
uuid = { version = "1", features = ["v4"] }
tokio = { version = "1", features = ["full"] }
async-trait = "0.1"
deadpool = "0.12"
deadpool-sqlite = "0.8"
sqlx = { version = "0.8", default-features = false, features = ["sqlite", "runtime-tokio", "macros", "chrono"] }
