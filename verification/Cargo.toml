[package]
name = "feed_parrot"
version = "0.1.0"
edition = "2021"
publish = false

[dependencies]
fancy-regex = "0.13"
unicode-segmentation = "1"
mime = "0.3"
blake3 = "1"
chrono = "0.4"
atom_syndication = "0.12"
rss = "2"
xhtmlchardet = "2"
encoding = "0.2"
serde = { version = "1", features = ["derive"] }
serde_json = "1"
rmp-serde = "1"
url = "2"
redb = "2"
reqwest = { version = "0.12", default-features = false, features = ["blocking", "json", "multipart", "rustls-tls"] }
getopts = "0.2"
env_logger = "0.11"
log = "0.4"
eyre = "0.6"
simple-eyre = "0.3"
getrandom = "0.2"
