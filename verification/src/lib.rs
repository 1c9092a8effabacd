//! A verified price-oracle pipeline: a decimal price is located in a fetched
//! response body, parsed into a deterministic fixed-point value, wrapped in a
//! payload signed with a node-held sr25519 key, and committed on-chain only
//! after the submission gate re-verifies the signature and the provider
//! allow-list.

pub mod agent;
pub mod crypto;
pub mod fetch;
pub mod gate;
pub mod parser;
pub mod signer;
