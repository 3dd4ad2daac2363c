[package]
name = "intent_engine"
version = "0.1.0"
edition = "2021"
publish = false

[dependencies]
bincode = "1"
candid = "0.10"
data-encoding = "2"
hex = "0.4"
ic-cdk = "0.17"
ic-llm = "*"
icrc-ledger-types = "*"
num-bigint = "0.4"
serde = { version = "1", features = ["derive"] }
serde_json = "1"
sha2 = "0.10"
