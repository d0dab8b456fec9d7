[package]
name = "pluto"
version = "0.1.0"
edition = "2021"
publish = false

[dependencies]
pulldown-cmark = "=0.12.2"
syntect = { version = "=4.6.0", default-features = false, features = ["default-fancy"] }
chrono = "=0.4.45"
clap = "2"
diesel = { version = "=1.4.8", features = ["postgres", "chrono"] }
dotenv = "0.15"
fs_extra = "1"
serde = { version = "1", features = ["derive"] }
serde_json = "1"
serde_yaml = "0.8"
ureq = "2"

[dev-dependencies]
quick-xml = "=0.22.0"
