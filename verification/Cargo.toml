[package]
name = "bevy_event_set"
version = "0.1.0"
edition = "2021"
publish = false

[dependencies]
bevy = { version = "=0.5.0", default-features = false }
darling_macro = "=0.10.2"
