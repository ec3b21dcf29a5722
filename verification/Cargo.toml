[package]
name = "win-ioring"
version = "0.1.0"
edition = "2021"
publish = false

[dependencies]
futures = "=0.3.34"
windows = { version = "=0.62.2", features = [
    "Win32_Foundation",
    "Win32_Security",
    "Win32_Storage_FileSystem",
    "Win32_System_IO",
    "Win32_System_Threading",
] }
windows-result = "=0.4.1"
