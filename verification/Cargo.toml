[package]
name = "priority_tx"
version = "0.1.0"
edition = "2021"
publish = false

[dependencies]
log = "0.4"
reqwest = { version = "0.11", default-features = false }
solana-commitment-config = "2.2"
solana-compute-budget-interface = "2.2"
solana-hash = "2.2"
solana-instruction = "2.2"
solana-keypair = "2.2"
solana-pubkey = "2.2"
solana-rpc-client = { version = "2.2", default-features = false }
solana-rpc-client-api = "2.2"
solana-signature = "2.2"
solana-signer = "2.2"
solana-transaction = "2.2"
solana-transaction-status-client-types = "2.2"
