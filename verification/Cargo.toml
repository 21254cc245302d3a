[package]
name = "branch_cleaner"
version = "0.1.0"
edition = "2021"
publish = false

[dependencies]
git-url-parse = "=0.6.0"
git2 = { version = "=0.21.0", default-features = false }
octocrab = "=0.44.1"
tokio = { version = "=1.53.2", features = ["rt", "rt-multi-thread", "sync", "macros"] }
thiserror = "=2.0.21"
