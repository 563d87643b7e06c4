[package]
name = "gdpm"
version = "0.1.0"
edition = "2021"
publish = false

[dependencies]
slugify = "*"
colored = "*"
reqwest = { version = "0.12", default-features = false, features = ["stream"] }
soup = "*"
dirs = "*"
fs_extra = "*"
remove_dir_all = "*"
zip = { version = "*", default-features = false }
clap = { version = "*", features = ["derive"] }
question = "*"
tokio = { version = "*", features = ["rt", "rt-multi-thread"] }
futures-util = "*"
indicatif = "*"
thiserror = "*"
color-eyre = "*"
tracing = "*"
tracing-subscriber = { version = "*", features = ["env-filter"] }
async-recursion = "*"
async-trait = "*"
