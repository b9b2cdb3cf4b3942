[package]
name = "ksud"
version = "0.1.0"
edition = "2021"
publish = false

[dependencies]
anyhow = "1.0.104"
base16ct = { version = "0.2.0", features = ["alloc"] }
chrono = "0.4.45"
clap = { version = "4.5.61", features = ["derive"] }
libc = "0.2.191"
memmap2 = "0.9.12"
regex-lite = "0.1.9"
rustix = { version = "1.1.6", features = ["system", "process"] }
sha1 = "0.10.7"
