[package]
name = "gpui_ghostty_terminal"
version = "0.1.0"
edition = "2021"
publish = false

[dependencies]
unicode-width = "0.2"
ohos-drawing-binding = "0.2"
