//! Mining of token metadata records: binary decoding of metadata and token
//! accounts, an idempotent local store, holder resolution and remediation
//! planning.
pub mod config;
pub mod decode;
pub mod holders;
pub mod layout;
pub mod miner;
pub mod remediation;
pub mod retry;
pub mod store;
pub mod token;
