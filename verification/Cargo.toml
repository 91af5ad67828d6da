[package]
name = "evo_grid"
version = "0.1.0"
edition = "2021"
publish = false

[dependencies]
env_logger = "0.10"
error-iter = "0.4"
log = "0.4"
winit = { version = "0.29", default-features = false, features = ["rwh_05", "x11"] }
winit_input_helper = "0.15"
