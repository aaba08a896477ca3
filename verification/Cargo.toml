[package]
name = "lil-big-helper"
version = "0.1.0"
edition = "2021"
publish = false

[dependencies]
arboard = { version = "3", default-features = false }
chrono = { version = "0.4", default-features = false, features = ["std", "alloc"] }
console = "*"
fuzzy-matcher = "0.3"
laurier = "*"
ratatui = "*"
rustc-hash = "2"
semver = "1"
serde = { version = "1", features = ["derive"] }
serde_json = "1"
tui-input = "*"
tui-tree-widget = "*"
