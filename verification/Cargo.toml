[package]
name = "pocket3d"
version = "0.1.0"
edition = "2021"
publish = false

[dependencies]
anyhow = "1"
base64 = "0.22"
bytemuck = { version = "1", features = ["derive"] }
glam = { version = "*", features = ["bytemuck"] }
gltf = { version = "1.4", features = ["KHR_materials_unlit", "KHR_texture_transform", "extensions", "extras"] }
image = { version = "0.25", default-features = false, features = ["png", "jpeg"] }
log = "0.4"
serde_json = "1"
wgpu = { version = "25", default-features = false, features = ["wgsl", "vulkan", "dx12"] }
winit = { version = "0.30", default-features = false, features = ["rwh_06", "x11"] }
windows = { version = "0.58", features = ["Win32_Foundation", "Win32_Graphics_DirectComposition", "Win32_Graphics_Dxgi"] }

[dev-dependencies]
png = "0.17"
