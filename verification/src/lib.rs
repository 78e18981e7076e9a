//! A Proof-of-History log: an append-only chain of entries in which a run of
//! SHA-256 iterations between events witnesses the work done, and in which
//! every event is committed into the running hash.
pub mod chain;
pub mod entry;
pub mod hashing;
pub mod payload;
pub mod producer;
pub mod signing;
pub mod validate;
