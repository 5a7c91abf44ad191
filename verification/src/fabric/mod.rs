//! The fabric between the hosts of a cloud, as one host realizes it.
pub mod backend;
pub mod clearance;
pub mod commands;
pub mod config;
pub mod course;
pub mod execution;
pub mod exposure;
pub mod geneve;
pub mod ground;
pub mod laws;
pub mod lifecycle;
pub mod links;
pub mod naming;
pub mod peering;
pub mod plan;
pub mod policy;
pub mod presence;
pub mod public;
pub mod reach;
pub mod realm;
pub mod removal;
pub mod state;
pub mod taps;
pub mod underlay;
pub mod verdicts;
