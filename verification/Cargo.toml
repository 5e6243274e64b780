[package]
name = "gcs_cromwell_cleaner"
version = "0.1.0"
edition = "2021"
publish = false

[dependencies]
anyhow = "=1.0.104"
clap = { version = "=4.6.7", features = ["derive"] }
futures = "=0.3.34"
google-cloud-default = { version = "=0.4.0", features = ["storage"] }
google-cloud-storage = "=0.11.1"
regex = "=1.13.1"
tokio = { version = "=1.54.1", features = ["macros", "rt-multi-thread"] }
