[package]
name = "bdiff"
version = "0.1.0"
edition = "2021"
publish = false

[dependencies]
anyhow = "=1.0.104"
eframe = { version = "=0.26.2", default-features = false, features = ["glow", "default_fonts"] }
egui-modal = "=0.3.4"
egui-phosphor = "=0.4.0"
log = "=0.4.34"
parse_int = "=0.6.0"
rfd = "=0.14.1"
