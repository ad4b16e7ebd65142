//! Search for vanity token-bound account addresses: the CREATE2 derivation
//! of an account from a registry, an implementation, a token and a salt, the
//! rules an address must meet, and the host and accelerator sweeps over salts.

pub mod address;
pub mod config;
pub mod decimal;
pub mod hex;
pub mod keccak;
pub mod layout;
pub mod matcher;
pub mod search;
