[package]
name = "mips_emulator"
version = "0.1.0"
edition = "2021"
publish = false

[dependencies]
eframe = { version = "0.22", default-features = false, features = ["default_fonts", "glow"] }
egui = "0.22"
log = "0.4"
simple_logger = "4"
wasm-bindgen-futures = "0.4"
