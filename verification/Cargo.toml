[package]
name = "bevy_fuzz"
version = "0.1.0"
edition = "2021"
publish = false

[dependencies]
postcard-cobs = { version = "=0.1.5-pre", default-features = false }
bevy = { version = "=0.6.1", default-features = false }
darling = "=0.13.4"

[dev-dependencies]
postcard = { version = "=0.7.3", default-features = false, features = ["alloc"] }
