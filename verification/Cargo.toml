[package]
name = "wicli"
version = "0.1.0"
edition = "2021"
publish = false

[dependencies]
anyhow = "1"
crossterm = "0.25"
home = "0.5"
jwalk = "0.8"
rayon = "1"
serde = { version = "1", features = ["derive"] }
serde_json = "1"
structopt = "0.3"
tui = { version = "0.19", default-features = false, features = ["crossterm"] }
url = "2"
