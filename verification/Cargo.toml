[package]
name = "chain_vote"
version = "0.1.0"
edition = "2021"
publish = false

[dependencies]
cryptoxide = "=0.4.4"
quickcheck = "=0.9.2"
rand = "=0.8.8"
rand_chacha = "=0.3.1"
rand_core = "=0.6.4"
thiserror = "=1.0.69"
