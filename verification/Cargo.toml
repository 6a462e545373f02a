[package]
name = "newton_audio"
version = "0.1.0"
edition = "2021"
publish = false

[dependencies]
lewton = "=0.10.2"
cpal = "=0.18.2"

[dev-dependencies]
hound = "=3.5.1"
