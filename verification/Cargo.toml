[package]
name = "tinyvox"
version = "0.1.0"
edition = "2021"
publish = false

[dependencies]
base64 = "*"
url = "*"
serde = { version = "*", features = ["derive"] }
serde_json = "*"
tokio = { version = "*", features = ["rt-multi-thread", "macros", "sync", "time"] }
tokio-tungstenite = { version = "*", features = ["rustls-tls-webpki-roots"] }
futures-util = "*"
reqwest = { version = "*", default-features = false, features = ["json", "rustls-tls"] }
dotenvy = "*"
rustls = { version = "*", default-features = false, features = ["ring", "std"] }
cpal = "*"
clipboard-win = "*"
windows = { version = "*", features = ["Win32_Foundation", "Win32_Security_Credentials", "Win32_System_Threading", "Win32_System_ProcessStatus", "Win32_System_LibraryLoader", "Win32_UI_WindowsAndMessaging", "Win32_UI_Input_KeyboardAndMouse", "Win32_Graphics_Gdi"] }
