//! Node and host networking of a small cloud: plans, ownership and realization.

pub mod digest;
pub mod domain;
pub mod fabric;
pub mod host;
pub mod identity;
pub mod ipv4;
pub mod json;
pub mod model;
pub mod order;
pub mod path;
pub mod plan;
pub mod public_reach;
pub mod public_realization;
pub mod reading;
pub mod render;
pub mod service;
pub mod session;
pub mod table;
pub mod text;
pub mod vocabulary;

pub use fabric::backend::LinuxFabricBackend;
pub use fabric::config::{LinuxFabricConfig, LinuxFabricError};
pub use host::config::HostNetworkError;
pub use host::manager::HostNetworkManager;
pub use host::types::{
    BridgeOwnership, GatewayOwnership, GatewaySpec, HostNetworkConfig, NetworkOwnershipManifest,
    TapAccess, TapOwnership, TapSpec,
};
pub use plan::attach::{
    add_l3_gateway_routing, compile_attachment_plan, compile_attachment_plan_with_defaults,
    compile_l3_gateway_network_plan, AttachmentPlanInput,
};
pub use plan::compile::compile_node_network_plan;
pub use plan::fingerprint::{canonical_plan_fingerprint, validate_plan_replay};
pub use plan::types::{NetworkPlanError, NodeNetworkPlan};
pub use public_realization::PublicAddressRealizer;
pub use service::binding::PortBindingState;
pub use service::calls::NetworkService;
pub use service::cleanup::{RealmCleanupObservation, RealmCleanupProgress};
pub use service::errors::NetworkError;
pub use service::gateways::compile_l3_gateway_intents;
pub use service::snapshot::CanonicalNetworkSnapshot;
pub use vocabulary::NetworkVocabulary;
