//! The rules of the elemental wheel games.
pub mod center;
pub mod ledger;
pub mod pool;
pub mod pubkey;
pub mod signer;
pub mod transfer;
pub mod water;
