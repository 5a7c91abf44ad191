//! Plans of nodes: their compilation, validation and fingerprints.
pub mod encode;
pub mod types;
pub mod fingerprint;
pub mod order;
pub mod compile;
pub mod content;
pub mod attach;
pub mod acceptance;
pub mod admission;
pub mod laws;
