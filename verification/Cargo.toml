[package]
name = "update_version"
version = "0.1.0"
edition = "2021"
publish = false

[dependencies]
anyhow = "=1.0.104"
clap = { version = "=4.6.7", features = ["derive"] }
dirs = "=7.0.0"
git2 = { version = "=0.21.0", features = ["https", "ssh"] }
ignore = "=0.4.33"
log = "=0.4.34"
pretty_env_logger = "=0.5.0"
semver = "=1.0.28"
thiserror = "=2.0.21"
tokio = { version = "=1.54.1", features = ["macros", "rt-multi-thread"] }

[dev-dependencies]
regex = "=1.13.1"
