[package]
name = "engine"
version = "0.1.0"
edition = "2021"
publish = false

[dependencies]
flate2 = "*"
gl = "*"
aseprite-loader = "*"
png = "*"
serde = { version = "*", features = ["derive"] }
serde_yml = "*"
serde-big-array = "*"
rand = "*"
nalgebra-glm = "*"
stb_image_rust = "*"
ldtk_rust = "*"
imgui = "*"
sdl2 = "*"
vorbis_rs = "*"
