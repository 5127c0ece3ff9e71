[package]
name = "questcraft_core"
version = "0.1.0"
edition = "2021"
publish = false

[dependencies]
android_logger = "*"
bytemuck = { version = "1", features = ["derive"] }
egui = "*"
glam = { version = "*", features = ["bytemuck", "mint"] }
gltf = { version = "1", features = ["extras", "names"] }
jni = "*"
log = "0.4"
mint = "0.5"
ndk = "*"
ndk-sys = "*"
openxr = "*"
profiling = "1"
serde = { version = "1", features = ["derive"] }
serde_json = "1"
vk-graph = "*"
