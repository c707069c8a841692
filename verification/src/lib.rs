//! Deterministic promo-code key derivation and batch funding for
//! proof-of-stake coins.
//!
//! A short human-shareable code is stretched through a long SHA-256 hash
//! chain into a private key; the key and its address are rendered in
//! checksummed Base58 formats; batches of codes are derived, funded over an
//! external gateway and persisted one record at a time.

pub mod codec;
pub mod coins;
pub mod conf;
pub mod curve;
pub mod derivation;
pub mod entropy;
pub mod hashes;
pub mod orchestrator;
pub mod records;
pub mod text;
