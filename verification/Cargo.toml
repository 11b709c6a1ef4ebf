[package]
name = "krabmaga"
version = "0.1.0"
edition = "2021"
publish = false

[dependencies]
a5 = "=0.9.0"
hashbrown = "=0.17.1"
