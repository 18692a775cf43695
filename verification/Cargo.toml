[package]
name = "music_library"
version = "0.1.0"
edition = "2021"
publish = false

[dependencies]
sha2 = "*"
image = { version = "*", default-features = false, features = ["jpeg", "png", "gif", "webp"] }
lofty = "*"
reqwest = { version = "*", default-features = false }
walkdir = "*"
rayon = "*"
