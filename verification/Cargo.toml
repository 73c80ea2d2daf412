[package]
name = "enclave"
version = "0.1.0"
edition = "2021"
publish = false

[dependencies]
aes-gcm = "0.10"
elliptic-curve = { version = "0.13", features = ["sec1", "std"] }
hmac = "0.12"
libc = "0.2"
p256 = { version = "0.13", features = ["ecdh"] }
rand = "0.9"
sha2 = "0.10"
tracing = "0.1"
windows = { version = "0.58", features = ["Win32_Foundation", "Win32_Graphics_Gdi", "Win32_Security_Authentication_Identity", "Win32_Security_Credentials", "Win32_System_Com", "Win32_System_Memory", "Win32_System_Rpc", "Win32_System_SystemInformation"] }
zeroize = "1"
