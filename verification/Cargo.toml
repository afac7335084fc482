[package]
name = "sql_time"
version = "0.1.0"
edition = "2021"
publish = false

[dev-dependencies]
time = { version = "0.3", features = ["formatting", "parsing"] }
