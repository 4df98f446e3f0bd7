[package]
name = "nus3edit"
version = "0.1.0"
edition = "2021"
publish = false

[dependencies]
nus3audio = "*"
rand = "0.9"
egui = "*"
hound = "3"
serde = { version = "1", features = ["derive"] }
once_cell = "1"
log = "0.4"
mp3-duration = "*"
