[package]
name = "anvil_udev"
version = "0.1.0"
edition = "2021"
publish = false

[dependencies]
drm = "=0.4.0"
glium = { version = "=0.27.0", default-features = false }
image = { version = "=0.23.14", default-features = false }
nix = "=0.20.2"
slog = "=2.8.2"
smithay = { version = "=0.3.0", default-features = false, features = ["backend_drm", "backend_gbm", "backend_egl", "backend_libinput", "backend_udev", "backend_session", "wayland_frontend"] }
