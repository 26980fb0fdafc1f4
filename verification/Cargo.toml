[package]
name = "parkour_lobby"
version = "0.1.0"
edition = "2021"
publish = false

[dependencies]
serde = { version = "1", features = ["derive"] }
toml = "*"
valence = "0.2.0-alpha.1"
valence_anvil = "0.2.0-alpha.1"
valence_boss_bar = "0.2.0-alpha.1"
