[package]
name = "core_nft"
version = "0.1.0"
edition = "2021"
publish = false

[dependencies]
ic-stable-structures = "=0.7.2"
icrc-ledger-types = "=0.1.13"
candid = "=0.10.39"
serde = { version = "=1.0.229", features = ["derive"] }
serde_bytes = "=0.11.19"
ic-cdk = "=0.20.3"
minicbor = { version = "=2.3.1", features = ["alloc", "derive"] }
bity-ic-icrc3 = "*"
bity-ic-storage-canister-api = "*"
bity-ic-types = "*"
bity-ic-canister-time = "*"
