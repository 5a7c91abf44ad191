//! The network service: which records it keeps and which requests it grants.
pub mod access;
pub mod binding;
pub mod calls;
pub mod cleanup;
pub mod decisions;
pub mod effects;
pub mod errors;
pub mod gateways;
pub mod grants;
pub mod groups;
pub mod legacy;
pub mod net;
pub mod networks;
pub mod overviews;
pub mod policies;
pub mod ports;
pub mod realms;
pub mod records;
pub mod requests;
pub mod routing;
pub mod rules;
pub mod snapshot;
pub mod subnets;
