[package]
name = "minotari_multisig"
version = "0.1.0"
edition = "2021"
publish = false

[dependencies]
borsh = "1"
chrono = "0.4"
digest = "0.10"
minotari_ledger_wallet_common = "=5.1.0"
serde = { version = "1", features = ["derive"] }
serde_json = "1"
sha2 = "0.10"
tari_common_types = "=5.1.0"
tari_crypto = "=0.22.1"
tari_hashing = "=5.1.0"
tari_jellyfish = "=5.1.0"
tari_max_size = "=5.1.0"
tari_script = "=5.1.0"
tari_service_framework = "=5.1.0"
tari_shutdown = "=5.1.0"
tari_sidechain = "=5.1.0"
tari_transaction_components = "=5.1.0"
tari_utilities = "=0.8.0"
