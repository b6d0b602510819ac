[package]
name = "game-core"
version = "0.3.0"
edition = "2021"
publish = false
