[package]
name = "fieldcad_desktop"
version = "0.1.0"
edition = "2021"
publish = false

[dependencies]
directories = "*"
egui = "*"
glam = "*"
open = "*"
serde = { version = "1", features = ["derive"] }
serde_json = "1"
thiserror = "*"
