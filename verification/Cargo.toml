[package]
name = "codexhalo"
version = "1.0.0"
edition = "2021"
publish = false

[dependencies]
chrono = "=0.4.45"
serde = { version = "=1.0.229", features = ["derive"] }
serde_json = "=1.0.154"
walkdir = "=2.5.0"
zstd = "=0.13.4"
tokio = { version = "=1.54.1", features = ["process", "io-util", "time", "rt", "macros", "sync"] }
which = "=8.0.6"
dirs = "=6.0.0"
windows = { version = "=0.58.0", features = ["Win32_Foundation", "Win32_System_Diagnostics_ToolHelp", "Win32_System_Threading", "Win32_UI_WindowsAndMessaging"] }
