//! Small utilities: content hashing.
pub mod hashing;
