[package]
name = "keymacro"
version = "0.1.0"
edition = "2021"
publish = false

[dependencies]
anyhow = "=1.0.104"
tokio = { version = "=1.53.2", features = ["rt-multi-thread", "macros", "io-std", "io-util", "sync"] }
windows = { version = "=0.52.0", features = ["Win32_Foundation", "Win32_UI_Input_KeyboardAndMouse"] }
