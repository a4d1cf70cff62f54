[package]
name = "evm_loader"
version = "0.1.0"
edition = "2021"
publish = false

[dependencies]
ethnum = "=1.5.3"
solana-program = "=5.1.0"
solana-system-interface = { version = "=3.3.0", features = ["bincode"] }
bs58 = "=0.4.0"
hex = "=0.4.3"
libsecp256k1 = "=0.7.2"
rlp = "=0.5.2"
serde_json = "=1.0.154"
spl-token = { version = "=9.0.0", default-features = false, features = ["no-entrypoint"] }
syn = { version = "2", features = ["full"] }
quote = "1"
