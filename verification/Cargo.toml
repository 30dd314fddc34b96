[package]
name = "wxwork_help"
version = "0.1.0"
edition = "2021"
publish = false

[dependencies]
retour = "*"
winapi = { version = "0.3", features = ["minwindef", "debugapi", "libloaderapi", "memoryapi", "processthreadsapi", "winnt", "winuser", "consoleapi", "processenv"] }
windows = { version = "*", features = ["Win32_Foundation", "Win32_System_Console", "Win32_System_LibraryLoader", "Win32_System_SystemServices", "Win32_System_Diagnostics_Debug"] }
