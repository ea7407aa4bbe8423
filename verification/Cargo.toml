[package]
name = "rsproxy"
version = "0.1.0"
edition = "2021"
publish = false

[dependencies]
regex = "1"
fancy-regex = "*"
aho-corasick = "1"
regex-syntax = "*"
base64 = "0.22"
sha2 = "0.10"
sha1 = "0.10"
rcgen = { version = "*", default-features = false, features = ["ring", "pem"] }
libc = "0.2"
thiserror = "2"
windows-sys = { version = "*", features = ["Win32_Foundation", "Win32_System_Threading", "Win32_Networking_WinInet", "Win32_System_ProcessStatus", "Win32_NetworkManagement_IpHelper"] }
