[package]
name = "air_quality_notifier"
version = "0.1.0"
edition = "2021"
publish = false

[dependencies]
anyhow = "=1.0.104"
reqwest = { version = "=0.13.5", features = ["blocking", "json"] }
serde = { version = "=1.0.229", features = ["derive"] }
# teloxide-core's `takecell ^0.1` resolves to 0.1.2, whose declared minimum
# rustc is newer than the toolchain here; pin the previous patch release.
takecell = "=0.1.1"
teloxide = { version = "=0.13.0", features = ["macros"] }
tokio = { version = "=1.53.2", features = ["rt-multi-thread", "macros", "time"] }
tracing = "=0.1.44"
urlencoding = "=2.1.3"
