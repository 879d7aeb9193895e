[package]
name = "godot_pipewire"
version = "0.1.0"
edition = "2021"
publish = false

[dependencies]
godot = "0.1"
libspa = "0.7"
pipewire = "0.7"
