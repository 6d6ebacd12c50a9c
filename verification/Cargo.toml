[package]
name = "selo"
version = "0.1.0"
edition = "2021"
publish = false

[dependencies]
geo = "0.29"
glam = "0.29"
i_overlay = "*"
geo-buffer = "*"
serde = { version = "1", features = ["derive"] }
wkt = "*"
itertools = "*"
derive_more = { version = "*", features = ["display", "error", "from"] }
num-traits = "*"
bevy_math = "0.15"
