[package]
name = "spectrum_monitor"
version = "0.1.0"
edition = "2021"
publish = false

[dependencies]
byte-slice-cast = "1.2"
eframe = "0.18"
egui = "0.18"
