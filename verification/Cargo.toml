[package]
name = "vhs-gui"
version = "0.1.0"
edition = "2021"
publish = false

[dependencies]
anyhow = "1"
eframe = { version = "=0.34.3", default-features = false, features = ["default_fonts", "glow", "wayland", "x11"] }
egui = "=0.34.3"
egui_glow = "=0.34.3"
glow = "0.17"
image = { version = "=0.25.10", default-features = false, features = ["jpeg"] }
libc = "0.2"
libmpv2 = "=7.0.0"
nix = { version = "=0.31.3", features = ["signal"] }
png = "=0.17.16"
serde = { version = "1", features = ["derive"] }
toml = "=1.1.8"
trash = "=5.2.9"
