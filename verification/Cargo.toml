[package]
name = "steamdualboot"
version = "0.1.0"
edition = "2021"
publish = false

[dependencies]
uefi = { version = "=0.35.0", features = ["alloc"] }
noto-sans-mono-bitmap = { version = "=0.3.2", features = ["bold", "size_20", "size_24", "size_32"] }
libm = "=0.2.16"
log = "=0.4.35"
serde = { version = "=1.0.229", features = ["derive"] }
serde_json = "=1.0.154"
thiserror = "=2.0.21"
tauri = { version = "=2.12.5", default-features = false }
