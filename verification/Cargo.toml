[package]
name = "laylay"
version = "0.1.0"
edition = "2021"
publish = false

[dependencies]
aes = "=0.8.4"
borsh = { version = "=1.8.1", features = ["derive", "bytes"] }
bytemuck = { version = "=1.25.2", features = ["derive"] }
bytes = "=1.12.1"
cbc = { version = "=0.1.2", features = ["std"] }
clap = { version = "=4.6.7", features = ["derive"] }
gltf = { version = "=1.4.1", default-features = false, features = ["names", "utils"] }
hex = "=0.4.3"
jni = "0.21"
k256 = { version = "=0.13.4", features = ["ecdh"] }
ndk-context = "0.1"
openxr = { version = "=0.19.0", features = ["loaded"] }
rand = "=0.8.8"
rusqlite = "0.32"
tokio = { version = "=1.54.1", features = ["rt-multi-thread", "net", "io-util", "sync", "macros"] }
tracing = "=0.1.44"
tracing-subscriber = { version = "=0.3.23", features = ["env-filter"] }
wgpu = { version = "=23.0.1", default-features = false, features = ["wgsl"] }
winit = { version = "=0.30.13", default-features = false, features = ["rwh_06", "x11"] }
