//! A hash-chained, append-only ledger whose records are admitted by a
//! proof-of-work puzzle over SHA-256 digests.
pub mod block;
pub mod chain;
pub mod digest;
pub mod encoding;
pub mod pow;
pub mod target;
