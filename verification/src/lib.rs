//! Litebag: the verified core of a small Litecoin wallet.
//!
//! The library derives receiving addresses from secret keys, turns entropy
//! into a BIP-39 recovery phrase and seed, hashes and checks wallet
//! passwords, and decides which fetched transactions are new.
pub mod text;
pub mod address;
mod entropy;
pub mod models;
pub mod monitor;
pub mod password;
pub mod seed;
pub mod wallet;
