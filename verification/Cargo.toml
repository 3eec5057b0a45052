[package]
name = "fridge_monitor"
version = "0.1.0"
edition = "2021"
publish = false

[dependencies]
anyhow = "=1.0.104"
chrono = { version = "=0.4.45", default-features = false, features = ["clock", "std"] }
derive_more = { version = "=2.1.1", features = ["deref", "deref_mut"] }
ffmpeg-next = "=8.1.0"
image = { version = "=0.25.10", default-features = false, features = ["bmp", "dds", "exr", "ff", "gif", "hdr", "ico", "jpeg", "png", "pnm", "qoi", "tga", "tiff", "webp"] }
libc = "=0.2.191"
reqwest = { version = "=0.12.28", default-features = false, features = ["blocking", "default-tls"] }
rgb = { version = "=0.8.53", default-features = false }
slint = { version = "=1.18.1", default-features = false, features = ["std", "compat-1-2"] }
smol = "=2.0.2"
sysinfo = { version = "=0.38.4", default-features = false, features = ["network", "system"] }
