[package]
name = "klotho"
version = "0.1.0"
edition = "2021"
publish = false

[dependencies]
async-std = "*"
chrono = "*"
flexi_logger = "*"
log = "*"
serde = { version = "*", features = ["derive"] }
structopt = "*"
uuid = { version = "*", features = ["v4"] }
