[package]
name = "jks_premietanie"
version = "0.1.0"
edition = "2021"
publish = false

[dependencies]
serde = { version = "1", features = ["derive"] }
serde_json = "1"
diesel = { version = "2", default-features = false, features = ["sqlite"] }
dotenvy = "0.15"
ratatui = { version = "*", default-features = false, features = ["crossterm"] }
crossterm = "*"
tui-tree-widget = "*"
tokio = { version = "1", features = ["rt", "macros", "sync", "time"] }
color-eyre = { version = "*", default-features = false }
serialport = { version = "4", default-features = false }
inputbox = "*"
native-dialog = { version = "*", default-features = false }
eframe = { version = "*", default-features = false, features = ["glow", "x11", "default_fonts"] }
egui = { version = "*", default-features = false, features = ["default_fonts"] }
winit = { version = "*", default-features = false, features = ["x11", "rwh_06"] }
