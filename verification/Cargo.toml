[package]
name = "bloomfilter"
version = "0.1.0"
edition = "2021"
publish = false

[dependencies]
siphasher = "1"
getrandom = "0.2"
memmap2 = "0.9"
serde = "1"
