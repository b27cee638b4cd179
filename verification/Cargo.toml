[package]
name = "brd"
version = "0.1.0"
edition = "2021"
publish = false

[dependencies]
anyhow = "1"
byteorder = "1"
clap = { version = "4", features = ["derive"] }
log = "0.4"
pbr = "1"
pretty_env_logger = "0.5"
quick-xml = { version = "0.37", features = ["serialize"] }
rayon = "1"
serde = { version = "1", features = ["derive"] }
tabwriter = "1"
thiserror = "1"
zip = { version = "0.6", default-features = false, features = ["deflate"] }
