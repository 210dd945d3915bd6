[package]
name = "irecovery"
version = "0.2.0"
edition = "2021"
publish = false

[dependencies]
futures-core = "0.3"
futures-lite = "2"
nusb = "0.2"
thiserror = "2"
