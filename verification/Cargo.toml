[package]
name = "pkg_tls"
version = "0.1.0"
edition = "2021"
publish = false

[dependencies]
rustls = { version = "0.23", default-features = false, features = ["ring", "std", "tls12"] }
webpki-roots = "0.26"
