[package]
name = "segotep_digital"
version = "0.1.0"
edition = "2021"
publish = false

[dependencies]
clap = { version = "=4.6.7", features = ["derive"] }
ctrlc = "=3.5.2"
hidapi = { version = "=2.6.7", default-features = false, features = ["linux-native-basic-udev"] }
log = "=0.4.35"
sysinfo = "=0.40.1"
tracing = "=0.1.44"
tracing-subscriber = { version = "=0.3.23", features = ["env-filter"] }
windows-sys = { version = "=0.61.2", features = ["Win32_Foundation", "Win32_Security", "Win32_System_Memory", "Win32_System_Performance", "Win32_System_LibraryLoader", "Win32_Storage_FileSystem", "Win32_System_IO", "Win32_System_Services"] }
