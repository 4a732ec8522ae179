//! A Bloom filter over a fixed-size bit array.
//!
//! The filter answers "has this item possibly been added?" with no false
//! negatives. Every item is mapped to its bit positions by double hashing:
//! two keyed SipHash evaluations stand in for any number of hash functions.

pub mod filter;
pub mod hashing;
pub mod journal;
pub mod journaled_filter;
pub mod laws;
pub mod model;
pub mod packed;
pub mod packing;
pub mod sizing;

pub use crate::filter::Bloom;
pub use crate::filter::BloomView;
pub use crate::hashing::SipKey;
pub use crate::journal::JournalView;
pub use crate::journal::JournaledStore;
pub use crate::journaled_filter::JournaledBloom;
pub use crate::journaled_filter::JournaledBloomView;
pub use crate::packed::PackedStore;
