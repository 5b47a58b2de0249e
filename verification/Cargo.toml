[package]
name = "octane"
version = "0.1.0"
edition = "2021"
publish = false

[dependencies]
anyhow = "1"
directories = "5"
discord-rich-presence = "0.2"
image = { version = "0.24", default-features = false, features = ["png"] }
percent-encoding = "2"
reqwest = { version = "0.11", default-features = false, features = ["blocking", "rustls-tls"] }
windows-sys = { version = "0.52", features = ["Win32_Foundation", "Win32_System_Diagnostics_Debug", "Win32_System_Diagnostics_ToolHelp", "Win32_System_Threading", "Win32_System_LibraryLoader", "Win32_UI_Shell", "Win32_UI_WindowsAndMessaging", "Win32_Graphics_Dwm", "Win32_Graphics_Gdi"] }
winreg = "0.52"
zip = { version = "0.6", default-features = false, features = ["deflate"] }
