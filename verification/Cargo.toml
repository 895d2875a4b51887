[package]
name = "hundredyearswar"
version = "0.1.0"
edition = "2021"
publish = false

[dependencies]
clap = { version = "4", features = ["derive"] }
env_logger = "*"
freetype-rs = "*"
gl = "*"
home = "*"
image = { version = "*", default-features = false, features = ["png"] }
log = "0.4"
sdl2 = "*"
serde = { version = "1", features = ["derive"] }
serde_yaml = "0.9"
