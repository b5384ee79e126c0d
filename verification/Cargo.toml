[package]
name = "rovex_core"
version = "0.1.0"
edition = "2021"
publish = false

[dependencies]
copypasta = "0.10"
libc = "0.2"
windows-sys = { version = "0.59", features = ["Win32_Foundation", "Win32_System_Com", "Win32_UI_Shell", "Win32_System_Registry", "Win32_System_Environment", "Win32_Storage_FileSystem"] }
