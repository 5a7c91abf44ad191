//! The network of a host: one bridge, its gateway address and the tap devices of instances.
pub mod bridge;
pub mod commands;
pub mod config;
pub mod fence;
pub mod laws;
pub mod links;
pub mod manager;
pub mod manifest;
pub mod restore;
pub mod standing;
pub mod taps;
pub mod types;
