[package]
name = "mail_cli"
version = "0.1.0"
edition = "2021"
publish = false

[dependencies]
anyhow = "=1.0.104"
chrono = "=0.4.45"
clap = { version = "=4.6.7", features = ["derive"] }
colored = "=3.1.1"
dialoguer = { version = "=0.12.0", features = ["completion"] }
directories = "=6.0.0"
dotenv = "=0.15.0"
imap = "=2.4.1"
mail-parser = "=0.11.9"
native-tls = "=0.2.18"
reqwest = { version = "=0.11.27", features = ["blocking", "json"] }
serde = { version = "=1.0.229", features = ["derive"] }
toml = "=1.1.7"
