[package]
name = "sup_decode"
version = "0.1.0"
edition = "2021"
publish = false

[dependencies]
byteorder = "1"
chrono = { version = "0.4", default-features = false, features = ["std"] }
iced = { version = "0.13", default-features = false, features = ["canvas"] }
