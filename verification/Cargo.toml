[package]
name = "hardware_info"
version = "0.10.0"
edition = "2021"
publish = false

[dependencies]
nvml-wrapper = "=0.13.0"
serde = { version = "=1.0.229", features = ["derive"] }
sysinfo = "=0.40.1"
windows = { version = "=0.62.2", features = ["Wdk_System_SystemServices", "Win32_Foundation", "Win32_Graphics_Dxgi", "Win32_Graphics_Gdi", "Win32_Security", "Win32_Storage_FileSystem", "Win32_System_IO", "Win32_System_Ioctl", "Win32_System_Registry", "Win32_System_SystemInformation", "Win32_UI_WindowsAndMessaging"] }
