[package]
name = "vitals"
version = "0.1.0"
edition = "2021"
publish = false

[dependencies]
serde = { version = "1", features = ["derive"] }
serde_json = "1"
sha2 = "0.10"
time = { version = "0.3", features = ["formatting"] }
clap = { version = "4", features = ["derive"] }
tiny_http = "0.12"
tar = "0.4"
flate2 = "1"
include_dir = "0.7"
libc = "0.2"
sysinfo = "0.33"
libproc = "0.14"
macmon = "*"
block2 = "0.6"
objc2 = "0.6"
objc2-foundation = "0.3"
objc2-app-kit = "0.3"
objc2-core-foundation = "0.3"
objc2-security = "0.3"
objc2-service-management = "0.3"
objc2-web-kit = "0.3"
