[package]
name = "geyser_filter"
version = "0.1.0"
edition = "2021"
publish = false

[dependencies]
agave-geyser-plugin-interface = "=4.1.2"
arc-swap = "=1.9.3"
base64 = "=0.22.1"
bs58 = "=0.5.1"
bytes = "=1.12.1"
prost = "=0.14.4"
solana-pubkey = "=4.4.0"
solana-signature = "=3.6.0"
spl-token-2022-interface = "=4.0.0"
thiserror = "=2.0.21"

[dev-dependencies]
solana-hash = "=4.7.0"
solana-keypair = "=4.0.0"
solana-message = "=6.0.0"
solana-signer = "=4.0.0"
solana-transaction = { version = "=6.0.0", features = ["wincode"] }
