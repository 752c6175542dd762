[package]
name = "goldy"
version = "0.1.0"
edition = "2021"
publish = false

[dependencies]
anyhow = "=1.0.104"
bytemuck = "=1.25.2"
cudarc = { version = "=0.17.8", default-features = false, features = ["std", "driver", "nvrtc", "dynamic-loading", "cuda-12080"] }
dirs = "=6.0.0"
raw-window-handle = "=0.6.2"
tracing = "=0.1.44"
windows = { version = "=0.58.0", features = ["Win32_Foundation", "Win32_Security", "Win32_Graphics_Direct3D", "Win32_Graphics_Direct3D12", "Win32_Graphics_Dxgi", "Win32_Graphics_Dxgi_Common", "Win32_Graphics_Gdi", "Win32_System_Diagnostics_Debug", "Win32_System_Kernel", "Win32_System_Threading", "Win32_System_LibraryLoader", "Win32_UI_WindowsAndMessaging"] }
