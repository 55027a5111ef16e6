[package]
name = "sanctum"
version = "0.1.0"
edition = "2021"
publish = false

[dependencies]
actix-web = { version = "4", default-features = false, features = ["macros"] }
ark-bls12-377 = { version = "0.4", features = ["r1cs"] }
ark-bw6-761 = "0.4"
ark-crypto-primitives = { version = "0.4", features = ["crh", "merkle_tree", "prf", "r1cs"] }
ark-ec = "0.4"
ark-ff = "0.4"
ark-groth16 = "0.4"
ark-r1cs-std = "0.4"
ark-relations = "0.4"
ark-serialize = "0.4"
ark-snark = "0.4"
ark-std = "0.4"
bs58 = "0.5"
rand = "0.8"
rand_chacha = "0.3"
reqwest = { version = "0.11", default-features = false, features = ["json"] }
serde = { version = "1", features = ["derive"] }
serde_json = "1"
soroban-sdk = "23"
tokio = { version = "1", features = ["rt-multi-thread", "macros"] }
