[package]
name = "wctr_dem_engine"
version = "0.1.0"
edition = "2021"
publish = false

[dependencies]
chrono = "0.4"
vecmath = "1.0"
wlambda = { version = "*", default-features = false }
ggez = "0.5"
sdl2 = "0.32"
