[package]
name = "sigverify"
version = "0.1.0"
edition = "2021"
publish = false

[dependencies]
agave-bls-cert-verify = { version = "=4.1.2", features = ["agave-unstable-api"] }
agave-feature-set = { version = "=4.1.2", features = ["agave-unstable-api"] }
agave-votor-messages = { version = "=4.1.2", features = ["agave-unstable-api"] }
crossbeam-channel = "=0.5.17"
log = "=0.4.35"
rand = "=0.9.5"
rayon = "=1.12.0"
solana-clock = "=3.1.1"
solana-hash = "=4.5.0"
solana-keypair = "=3.1.2"
solana-measure = { version = "=4.1.2", features = ["agave-unstable-api"] }
solana-metrics = { version = "=4.1.2", features = ["agave-unstable-api"] }
solana-perf = { version = "=4.1.2", features = ["agave-unstable-api"] }
solana-pubkey = "=4.2.1"
solana-short-vec = "=3.2.2"
solana-signature = { version = "=3.4.1", features = ["verify"] }
solana-signer = "=3.0.1"
thiserror = "=2.0.21"
wincode = "=0.5.5"
