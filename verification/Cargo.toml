[package]
name = "git_lastmod"
version = "0.1.0"
edition = "2021"
publish = false

[dependencies]
git2 = { version = "*", default-features = false }

[dev-dependencies]
tempfile = "*"
