[package]
name = "solana_stub_prover"
version = "0.1.0"
edition = "2021"
publish = false

[dependencies]
bs58 = "*"
sha2 = "*"
base64 = "*"
hex = "*"
serde = { version = "*", features = ["derive"] }
serde_json = "*"
rdkafka = { version = "*", features = ["tokio"] }
reqwest = { version = "*", default-features = false, features = ["json"] }
tokio = { version = "*", features = ["macros", "rt-multi-thread", "time"] }
clap = { version = "*", features = ["derive"] }
chrono = "*"
dotenv = "*"
futures = "*"

[dev-dependencies]
bincode = "1"
