[package]
name = "survey_bot"
version = "0.1.0"
edition = "2021"
publish = false

[dependencies]
chrono = "=0.4.45"
csv = "=1.4.0"
dotenv = "=0.15.0"
dptree = "=0.3.0"
env_logger = "=0.10.2"
log = "=0.4.35"
reqwest = { version = "=0.11.27", default-features = false, features = ["json", "rustls-tls"] }
rusqlite = { version = "=0.29.0", features = ["bundled"] }
serde = { version = "=1.0.229", features = ["derive"] }
serde_json = "=1.0.154"
# takecell is not used directly: teloxide-core depends on it, and its
# release 0.1.2 needs rustc 1.96, so an earlier release is selected.
takecell = "<0.1.2"
teloxide = { version = "=0.12.2", default-features = false, features = ["macros", "ctrlc_handler", "auto-send", "rustls"] }
tokio = { version = "=1.54.1", features = ["macros", "rt-multi-thread"] }
