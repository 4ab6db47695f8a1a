[package]
name = "rts_sim"
version = "0.1.0"
edition = "2021"
publish = false

[dependencies]
rand_core = "*"
rand_xoshiro = "*"
seahash = "*"
serde = { version = "*", features = ["derive"] }
ron = "*"
