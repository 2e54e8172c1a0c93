[package]
name = "woonsocket"
version = "0.1.0"
edition = "2021"
publish = false

[dependencies]
anyhow = "1"
bincode = "1.3"
clap = { version = "4", features = ["derive"] }
csv = "1"
io-uring = "*"
libc = "0.2"
minstant = "0.1"
rand = "0.8"
rand_distr = "0.4"
serde = { version = "1", features = ["derive"] }
