[package]
name = "sqliter"
version = "0.1.0"
edition = "2021"
publish = false

[dependencies]
async-rusqlite = "=0.5.0"
rusqlite = "=0.37.0"

[dev-dependencies]
tempfile = "=3.27.0"
