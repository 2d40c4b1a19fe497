[package]
name = "duckdelta"
version = "0.1.0"
edition = "2021"
publish = false

[dependencies]
async-trait = "=0.1.92"
aws-config = { version = "1.13.0", default-features = false, features = ["rt-tokio"] }
duckdb = { version = "1.20000.0", default-features = false }
regex-syntax = "=0.8.11"
sqlparser = "=0.63.0"
tokio = { version = "1.54.1", features = ["rt-multi-thread", "macros"] }

[dev-dependencies]
regex = "=1.13.1"
