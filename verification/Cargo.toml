[package]
name = "logmon"
version = "0.1.0"
edition = "2021"
publish = false

[dependencies]
regex = "*"
sha2 = "*"
md-5 = "*"
blake2 = "*"
syslog_loose = "*"
chrono = "*"
clap = { version = "*", features = ["derive"] }
crossterm = "*"
ctrlc = "*"
glob = "*"
walkdir = "*"
rayon = "*"
