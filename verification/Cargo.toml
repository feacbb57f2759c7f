[package]
name = "coreutils"
version = "0.1.0"
edition = "2021"
publish = false

[dependencies]
chrono = { version = "0.4", default-features = false, features = ["std"] }
winapi = { version = "0.3", features = ["accctrl", "aclapi", "fileapi", "handleapi", "minwindef", "ntdef", "winbase", "winerror", "winnt"] }
