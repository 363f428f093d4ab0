//! A content-addressable storage engine: content is stored and retrieved by
//! the cryptographic integrity digest of its bytes rather than by a
//! caller-chosen name.
//!
//! The engine's logic lives here, verified: digest values and their
//! well-formedness, the deterministic sharded addressing of a digest to a
//! relative path, the incremental digest accumulator, the write-and-verify
//! protocol, and the store state machine (absent, present, absent again)
//! with its round-trip, dedup and idempotent-removal laws.

pub mod address;
pub mod digest;
pub mod errors;
pub mod hashing;
pub mod store;
pub mod writer;
