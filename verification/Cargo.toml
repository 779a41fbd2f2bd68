[package]
name = "qwert"
version = "0.1.0"
edition = "2021"
publish = false

[dependencies]
pulldown-cmark = "*"
unicode-normalization = "*"
unicase = "*"
regex = "*"
similar = "*"
serde = { version = "1", features = ["derive"] }
serde_json = "1"
toml = "*"
clap = { version = "4", features = ["derive"] }
clap_mangen = "*"
tempfile = "3"
walkdir = "2"
ignore = "*"
notify = "*"
directories = "*"
thiserror = "*"
is-terminal = "*"
rayon = "1"
tokio = { version = "1", features = ["rt-multi-thread", "macros", "io-std"] }
rmcp = "*"

[dev-dependencies]
tempfile = "3"
