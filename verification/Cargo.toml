[package]
name = "osu_explorer"
version = "0.1.0"
edition = "2021"
publish = false

[dependencies]
anyhow = "1"
directories = "*"
osuparse = "*"
rayon = "1"
seli-vector-db = "*"
serde = { version = "1", features = ["derive"] }
serde_json = "1"
walkdir = "2"
