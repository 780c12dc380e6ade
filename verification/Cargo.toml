[package]
name = "datafusion-table-providers-quack"
version = "0.1.0"
edition = "2021"
publish = false

[dependencies]
arrow = { version = "=58.4.1", default-features = false }
async-trait = "=0.1.92"
datafusion-common = { version = "=54.1.0", default-features = false, features = ["sql"] }
datafusion-sql = { version = "=54.1.0", default-features = false, features = ["unparser"] }
futures = "=0.3.34"
quack_protocol = { version = "=0.3.0", features = ["arrow"] }
secrecy = "=0.10.3"
snafu = "=0.8.9"
tracing = "=0.1.44"
