[package]
name = "af"
version = "0.1.0"
edition = "2021"
publish = false

[dependencies]
anyhow = "=1.0.104"
clap = { version = "=4.6.7", features = ["derive", "env"] }
clap_complete_command = "=0.6.1"
clap-verbosity-flag = "=3.0.4"
cli-clipboard = "=0.4.0"
clio = { version = "=0.3.5", features = ["clap-parse"] }
console = "=0.16.6"
dialoguer = { version = "=0.12.0", features = ["fuzzy-select"] }
fern = { version = "=0.7.1", features = ["colored"] }
git2 = { version = "=0.21.0", default-features = false }
glob = "=0.3.4"
humantime = "=2.4.0"
indicatif = "=0.18.6"
indicatif-log-bridge = "=0.2.3"
log = "=0.4.34"
octocrab = "=0.43.0"
rayon = "=1.12.0"
regex = "=1.13.1"
thiserror = "=2.0.21"
tokio = { version = "=1.54.1", features = ["macros", "rt-multi-thread"] }
url = "=2.5.8"
