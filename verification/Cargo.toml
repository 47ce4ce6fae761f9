[package]
name = "dds_workbench"
version = "0.1.0"
edition = "2021"
publish = false

[dependencies]
chrono = "=0.4.45"
csv = "=1.4.0"
docx-rs = "=0.4.22"
sha2 = "=0.10.9"
crossbeam-channel = "=0.5.17"
num_cpus = "=1.17.0"
thiserror = "=1.0.69"
windows-sys = { version = "=0.59.0", features = ["Win32_Foundation", "Win32_Storage_FileSystem"] }

[dev-dependencies]
zip = { version = "=8.6.0", default-features = false, features = ["deflate"] }
