//! Wallet challenge-response authentication: single-use nonces, signer
//! recovery, session token minting and enterprise binding.
pub mod address;
pub mod nonce;
pub mod signer;
pub mod session;
pub mod directory;
pub mod service;
