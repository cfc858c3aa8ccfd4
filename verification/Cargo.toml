[package]
name = "buck_manifest"
version = "0.1.0"
edition = "2021"
publish = false

[dependencies]
clap = { version = "=4.6.7", features = ["derive"] }
console = "=0.16.6"
dirs = "=7.0.0"
indicatif = "=0.18.6"
itertools = "=0.15.0"
miette = "5.10.0"
rattler_installs_packages = "=0.1.0"
tabwriter = "=1.4.1"
tokio = { version = "=1.54.1", features = ["rt", "rt-multi-thread", "macros"] }
tracing = "=0.1.44"
tracing-subscriber = { version = "=0.3.23", features = ["env-filter"] }
url = "=2.5.8"
