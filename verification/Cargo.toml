[package]
name = "pgdump_toc_rewrite"
version = "1.0.0"
edition = "2021"
publish = false

[dependencies]
sqlparser = "*"
serde = { version = "*", features = ["derive"] }
serde_json = "*"
flate2 = "*"
clap = "*"
