[package]
name = "susm"
version = "0.1.0"
edition = "2021"
publish = false

[dependencies]
sha2 = "=0.10.9"
crc32c = "=0.6.9"
parse-size = { version = "=1.1.0", features = ["std"] }
uuid = { version = "=1.29.0", features = ["v7"] }
semver = "=1.0.28"
zstd = "=0.13.4"
jiff = "=0.2.39"
clap = { version = "=4.6.7", features = ["derive"] }
clap_complete = "=4.6.11"
serde = { version = "=1.0.229", features = ["derive"] }
serde_json = "=1.0.154"
toml = "=1.1.8"
rusqlite = { version = "0.40", features = ["bundled"] }
rusqlite_migration = "2.6"
tempfile = "=3.27.0"
zip = "=9.2.2"
tokio = { version = "=1.54.1", features = ["full"] }
prost = "=0.14.4"
thiserror = "=2.0.21"
comfy-table = "=7.2.2"
anstyle = "=1.0.14"
anstream = "=1.0.0"
humantime-serde = "=1.1.1"
tracing = "=0.1.44"
tracing-subscriber = { version = "=0.3.23", features = ["json"] }
windows = { version = "=0.62.2", features = ["Win32_Foundation", "Win32_Security_Authorization", "Win32_Storage_FileSystem", "Win32_System_Console", "Win32_System_Environment", "Win32_System_JobObjects", "Win32_System_Pipes", "Win32_System_Registry", "Win32_System_RemoteDesktop", "Win32_System_Services", "Win32_System_Threading"] }
windows-service = "=0.8.1"
windows-services = "=0.100.0"
