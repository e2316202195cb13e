[package]
name = "git-select-branch"
version = "0.2.1"
edition = "2021"
publish = false

[dependencies]
anyhow = "1"
ctrlc = "3"
dialoguer = { version = "*", features = ["fuzzy-select"] }
expect-exit = "*"
git2 = { version = "*", default-features = false }
thiserror = "1"

[dev-dependencies]
tempfile = "3"
