//! Transaction validation and threshold decryption for verifiable elections.
//!
//! An election is an append-only log of signed transactions. Every transaction
//! is named by a 32-byte identifier that encodes the election it belongs to,
//! its kind, and a kind-specific unique part. Validation reads the
//! predecessors of a transaction from a store and never writes to it.

pub mod crypto;
pub mod decryption;
pub mod election;
pub mod envelope;
pub mod error;
pub mod hex_codec;
pub mod identifier;
pub mod key_generation;
pub mod mix;
pub mod partial_decryption;
pub mod store;
pub mod transaction;
pub mod vote;
pub mod voting_end;
