//! One-time Lamport signatures over SHA-256 and a two-party agreement
//! protocol built on them.

pub mod agreement;
pub mod hashing;
pub mod lamport;
