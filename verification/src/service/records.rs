//! The records that the service keeps in its store, and those that it shows to clients.
use super::calls::Decision;
use crate::model::{copy_opt, same_opt, view_opt, views, Model};
use crate::text::same;
use vstd::prelude::*;

verus! {

/// How far an operation is.
#[derive(Clone, Copy, Debug, PartialEq, Eq, Structural)]
pub enum OperationState {
    Pending,
    Running,
    Retryable,
    UnknownOutcome,
    Succeeded,
    Failed,
}

/// What became of a request.
#[derive(Clone, Copy, Debug, PartialEq, Eq, Structural)]
pub enum AuditOutcome {
    Denied,
    Succeeded,
    Failed,
}

/// A network as clients see it.
#[derive(Clone, Debug, PartialEq, Eq)]
pub struct NetworkRecord {
    pub id: u128,
    pub name: String,
    pub project_id: String,
    pub status: String,
}

/// The view of [`NetworkRecord`].
#[verifier::ext_equal]
pub struct NetworkRecordView {
    pub id: u128,
    pub name: Seq<char>,
    pub project_id: Seq<char>,
    pub status: Seq<char>,
}

impl View for NetworkRecord {
    type V = NetworkRecordView;

    open spec fn view(&self) -> NetworkRecordView {
        NetworkRecordView {
            id: self.id,
            name: self.name@,
            project_id: self.project_id@,
            status: self.status@,
        }
    }
}

impl Model for NetworkRecord {
    fn copy(&self) -> (r: Self) {
        NetworkRecord {
            id: self.id,
            name: self.name.clone(),
            project_id: self.project_id.clone(),
            status: self.status.clone(),
        }
    }

    fn same_as(&self, other: &Self) -> (r: bool) {
        self.id == other.id
            && same(self.name.as_str(), other.name.as_str())
            && same(self.project_id.as_str(), other.project_id.as_str())
            && same(self.status.as_str(), other.status.as_str())
    }
}

/// A subnet as clients see it.
#[derive(Clone, Debug, PartialEq, Eq)]
pub struct SubnetRecord {
    pub id: u128,
    pub network_id: u128,
    pub name: String,
    pub project_id: String,
    pub cidr: String,
    pub gateway_ip: u32,
    pub allocation_start: u32,
    pub allocation_end: u32,
    pub ip_version: u8,
    pub enable_dhcp: bool,
}

/// The view of [`SubnetRecord`].
#[verifier::ext_equal]
pub struct SubnetRecordView {
    pub id: u128,
    pub network_id: u128,
    pub name: Seq<char>,
    pub project_id: Seq<char>,
    pub cidr: Seq<char>,
    pub gateway_ip: u32,
    pub allocation_start: u32,
    pub allocation_end: u32,
    pub ip_version: u8,
    pub enable_dhcp: bool,
}

impl View for SubnetRecord {
    type V = SubnetRecordView;

    open spec fn view(&self) -> SubnetRecordView {
        SubnetRecordView {
            id: self.id,
            network_id: self.network_id,
            name: self.name@,
            project_id: self.project_id@,
            cidr: self.cidr@,
            gateway_ip: self.gateway_ip,
            allocation_start: self.allocation_start,
            allocation_end: self.allocation_end,
            ip_version: self.ip_version,
            enable_dhcp: self.enable_dhcp,
        }
    }
}

impl Model for SubnetRecord {
    fn copy(&self) -> (r: Self) {
        SubnetRecord {
            id: self.id,
            network_id: self.network_id,
            name: self.name.clone(),
            project_id: self.project_id.clone(),
            cidr: self.cidr.clone(),
            gateway_ip: self.gateway_ip,
            allocation_start: self.allocation_start,
            allocation_end: self.allocation_end,
            ip_version: self.ip_version,
            enable_dhcp: self.enable_dhcp,
        }
    }

    fn same_as(&self, other: &Self) -> (r: bool) {
        self.id == other.id
            && self.network_id == other.network_id
            && same(self.name.as_str(), other.name.as_str())
            && same(self.project_id.as_str(), other.project_id.as_str())
            && same(self.cidr.as_str(), other.cidr.as_str())
            && self.gateway_ip == other.gateway_ip
            && self.allocation_start == other.allocation_start
            && self.allocation_end == other.allocation_end
            && self.ip_version == other.ip_version
            && self.enable_dhcp == other.enable_dhcp
    }
}

/// A port as clients see it.
#[derive(Clone, Debug, PartialEq, Eq)]
pub struct PortRecord {
    pub id: u128,
    pub network_id: u128,
    pub subnet_id: Option<u128>,
    pub project_id: String,
    pub name: String,
    pub mac_address: String,
    pub fixed_ip: u32,
    pub status: String,
    pub binding_host: Option<String>,
    pub binding_state: Option<String>,
}

/// The view of [`PortRecord`].
#[verifier::ext_equal]
pub struct PortRecordView {
    pub id: u128,
    pub network_id: u128,
    pub subnet_id: Option<u128>,
    pub project_id: Seq<char>,
    pub name: Seq<char>,
    pub mac_address: Seq<char>,
    pub fixed_ip: u32,
    pub status: Seq<char>,
    pub binding_host: Option<Seq<char>>,
    pub binding_state: Option<Seq<char>>,
}

impl View for PortRecord {
    type V = PortRecordView;

    open spec fn view(&self) -> PortRecordView {
        PortRecordView {
            id: self.id,
            network_id: self.network_id,
            subnet_id: self.subnet_id,
            project_id: self.project_id@,
            name: self.name@,
            mac_address: self.mac_address@,
            fixed_ip: self.fixed_ip,
            status: self.status@,
            binding_host: view_opt(self.binding_host),
            binding_state: view_opt(self.binding_state),
        }
    }
}

impl Model for PortRecord {
    fn copy(&self) -> (r: Self) {
        PortRecord {
            id: self.id,
            network_id: self.network_id,
            subnet_id: self.subnet_id,
            project_id: self.project_id.clone(),
            name: self.name.clone(),
            mac_address: self.mac_address.clone(),
            fixed_ip: self.fixed_ip,
            status: self.status.clone(),
            binding_host: copy_opt(&self.binding_host),
            binding_state: copy_opt(&self.binding_state),
        }
    }

    fn same_as(&self, other: &Self) -> (r: bool) {
        self.id == other.id
            && self.network_id == other.network_id
            && self.subnet_id == other.subnet_id
            && same(self.project_id.as_str(), other.project_id.as_str())
            && same(self.name.as_str(), other.name.as_str())
            && same(self.mac_address.as_str(), other.mac_address.as_str())
            && self.fixed_ip == other.fixed_ip
            && same(self.status.as_str(), other.status.as_str())
            && same_opt(&self.binding_host, &other.binding_host)
            && same_opt(&self.binding_state, &other.binding_state)
    }
}

/// A network.
#[derive(Clone, Debug, PartialEq, Eq)]
pub struct CanonicalNetworkRecord {
    pub id: u128,
    pub project_id: String,
    pub name: String,
    pub admin_state_up: bool,
    pub generation: u64,
    pub state: String,
}

/// The view of [`CanonicalNetworkRecord`].
#[verifier::ext_equal]
pub struct CanonicalNetworkRecordView {
    pub id: u128,
    pub project_id: Seq<char>,
    pub name: Seq<char>,
    pub admin_state_up: bool,
    pub generation: u64,
    pub state: Seq<char>,
}

impl View for CanonicalNetworkRecord {
    type V = CanonicalNetworkRecordView;

    open spec fn view(&self) -> CanonicalNetworkRecordView {
        CanonicalNetworkRecordView {
            id: self.id,
            project_id: self.project_id@,
            name: self.name@,
            admin_state_up: self.admin_state_up,
            generation: self.generation,
            state: self.state@,
        }
    }
}

impl Model for CanonicalNetworkRecord {
    fn copy(&self) -> (r: Self) {
        CanonicalNetworkRecord {
            id: self.id,
            project_id: self.project_id.clone(),
            name: self.name.clone(),
            admin_state_up: self.admin_state_up,
            generation: self.generation,
            state: self.state.clone(),
        }
    }

    fn same_as(&self, other: &Self) -> (r: bool) {
        self.id == other.id
            && same(self.project_id.as_str(), other.project_id.as_str())
            && same(self.name.as_str(), other.name.as_str())
            && self.admin_state_up == other.admin_state_up
            && self.generation == other.generation
            && same(self.state.as_str(), other.state.as_str())
    }
}

/// An address realm of a network.
#[derive(Clone, Debug, PartialEq, Eq)]
pub struct CanonicalAddressRealmRecord {
    pub id: u128,
    pub network_id: u128,
    pub project_id: String,
    pub prefix: String,
    pub overlapping_prefixes: bool,
    pub generation: u64,
    pub state: String,
}

/// The view of [`CanonicalAddressRealmRecord`].
#[verifier::ext_equal]
pub struct CanonicalAddressRealmRecordView {
    pub id: u128,
    pub network_id: u128,
    pub project_id: Seq<char>,
    pub prefix: Seq<char>,
    pub overlapping_prefixes: bool,
    pub generation: u64,
    pub state: Seq<char>,
}

impl View for CanonicalAddressRealmRecord {
    type V = CanonicalAddressRealmRecordView;

    open spec fn view(&self) -> CanonicalAddressRealmRecordView {
        CanonicalAddressRealmRecordView {
            id: self.id,
            network_id: self.network_id,
            project_id: self.project_id@,
            prefix: self.prefix@,
            overlapping_prefixes: self.overlapping_prefixes,
            generation: self.generation,
            state: self.state@,
        }
    }
}

impl Model for CanonicalAddressRealmRecord {
    fn copy(&self) -> (r: Self) {
        CanonicalAddressRealmRecord {
            id: self.id,
            network_id: self.network_id,
            project_id: self.project_id.clone(),
            prefix: self.prefix.clone(),
            overlapping_prefixes: self.overlapping_prefixes,
            generation: self.generation,
            state: self.state.clone(),
        }
    }

    fn same_as(&self, other: &Self) -> (r: bool) {
        self.id == other.id
            && self.network_id == other.network_id
            && same(self.project_id.as_str(), other.project_id.as_str())
            && same(self.prefix.as_str(), other.prefix.as_str())
            && self.overlapping_prefixes == other.overlapping_prefixes
            && self.generation == other.generation
            && same(self.state.as_str(), other.state.as_str())
    }
}

/// A pool of addresses of a realm.
#[derive(Clone, Debug, PartialEq, Eq)]
pub struct CanonicalAddressPoolRecord {
    pub id: u128,
    pub realm_id: u128,
    pub project_id: String,
    pub prefix: String,
    pub gateway: Option<u32>,
    pub first_usable: u32,
    pub last_usable: u32,
    pub generation: u64,
    pub state: String,
}

/// The view of [`CanonicalAddressPoolRecord`].
#[verifier::ext_equal]
pub struct CanonicalAddressPoolRecordView {
    pub id: u128,
    pub realm_id: u128,
    pub project_id: Seq<char>,
    pub prefix: Seq<char>,
    pub gateway: Option<u32>,
    pub first_usable: u32,
    pub last_usable: u32,
    pub generation: u64,
    pub state: Seq<char>,
}

impl View for CanonicalAddressPoolRecord {
    type V = CanonicalAddressPoolRecordView;

    open spec fn view(&self) -> CanonicalAddressPoolRecordView {
        CanonicalAddressPoolRecordView {
            id: self.id,
            realm_id: self.realm_id,
            project_id: self.project_id@,
            prefix: self.prefix@,
            gateway: self.gateway,
            first_usable: self.first_usable,
            last_usable: self.last_usable,
            generation: self.generation,
            state: self.state@,
        }
    }
}

impl Model for CanonicalAddressPoolRecord {
    fn copy(&self) -> (r: Self) {
        CanonicalAddressPoolRecord {
            id: self.id,
            realm_id: self.realm_id,
            project_id: self.project_id.clone(),
            prefix: self.prefix.clone(),
            gateway: self.gateway,
            first_usable: self.first_usable,
            last_usable: self.last_usable,
            generation: self.generation,
            state: self.state.clone(),
        }
    }

    fn same_as(&self, other: &Self) -> (r: bool) {
        self.id == other.id
            && self.realm_id == other.realm_id
            && same(self.project_id.as_str(), other.project_id.as_str())
            && same(self.prefix.as_str(), other.prefix.as_str())
            && self.gateway == other.gateway
            && self.first_usable == other.first_usable
            && self.last_usable == other.last_usable
            && self.generation == other.generation
            && same(self.state.as_str(), other.state.as_str())
    }
}

/// An endpoint of a realm.
#[derive(Clone, Debug, PartialEq, Eq)]
pub struct CanonicalEndpointRecord {
    pub id: u128,
    pub realm_id: u128,
    pub project_id: String,
    pub fixed_ip: u32,
    pub mac: String,
    pub generation: u64,
    pub state: String,
}

/// The view of [`CanonicalEndpointRecord`].
#[verifier::ext_equal]
pub struct CanonicalEndpointRecordView {
    pub id: u128,
    pub realm_id: u128,
    pub project_id: Seq<char>,
    pub fixed_ip: u32,
    pub mac: Seq<char>,
    pub generation: u64,
    pub state: Seq<char>,
}

impl View for CanonicalEndpointRecord {
    type V = CanonicalEndpointRecordView;

    open spec fn view(&self) -> CanonicalEndpointRecordView {
        CanonicalEndpointRecordView {
            id: self.id,
            realm_id: self.realm_id,
            project_id: self.project_id@,
            fixed_ip: self.fixed_ip,
            mac: self.mac@,
            generation: self.generation,
            state: self.state@,
        }
    }
}

impl Model for CanonicalEndpointRecord {
    fn copy(&self) -> (r: Self) {
        CanonicalEndpointRecord {
            id: self.id,
            realm_id: self.realm_id,
            project_id: self.project_id.clone(),
            fixed_ip: self.fixed_ip,
            mac: self.mac.clone(),
            generation: self.generation,
            state: self.state.clone(),
        }
    }

    fn same_as(&self, other: &Self) -> (r: bool) {
        self.id == other.id
            && self.realm_id == other.realm_id
            && same(self.project_id.as_str(), other.project_id.as_str())
            && self.fixed_ip == other.fixed_ip
            && same(self.mac.as_str(), other.mac.as_str())
            && self.generation == other.generation
            && same(self.state.as_str(), other.state.as_str())
    }
}

/// A gateway between realms.
#[derive(Clone, Debug, PartialEq, Eq)]
pub struct CanonicalL3GatewayRecord {
    pub id: u128,
    pub project_id: String,
    pub name: String,
    pub external_realm_id: Option<u128>,
    pub enable_snat: bool,
    pub generation: u64,
    pub state: String,
}

/// The view of [`CanonicalL3GatewayRecord`].
#[verifier::ext_equal]
pub struct CanonicalL3GatewayRecordView {
    pub id: u128,
    pub project_id: Seq<char>,
    pub name: Seq<char>,
    pub external_realm_id: Option<u128>,
    pub enable_snat: bool,
    pub generation: u64,
    pub state: Seq<char>,
}

impl View for CanonicalL3GatewayRecord {
    type V = CanonicalL3GatewayRecordView;

    open spec fn view(&self) -> CanonicalL3GatewayRecordView {
        CanonicalL3GatewayRecordView {
            id: self.id,
            project_id: self.project_id@,
            name: self.name@,
            external_realm_id: self.external_realm_id,
            enable_snat: self.enable_snat,
            generation: self.generation,
            state: self.state@,
        }
    }
}

impl Model for CanonicalL3GatewayRecord {
    fn copy(&self) -> (r: Self) {
        CanonicalL3GatewayRecord {
            id: self.id,
            project_id: self.project_id.clone(),
            name: self.name.clone(),
            external_realm_id: self.external_realm_id,
            enable_snat: self.enable_snat,
            generation: self.generation,
            state: self.state.clone(),
        }
    }

    fn same_as(&self, other: &Self) -> (r: bool) {
        self.id == other.id
            && same(self.project_id.as_str(), other.project_id.as_str())
            && same(self.name.as_str(), other.name.as_str())
            && self.external_realm_id == other.external_realm_id
            && self.enable_snat == other.enable_snat
            && self.generation == other.generation
            && same(self.state.as_str(), other.state.as_str())
    }
}

/// A realm that is attached to a gateway.
#[derive(Clone, Debug, PartialEq, Eq)]
pub struct CanonicalL3GatewayAttachmentRecord {
    pub id: u128,
    pub gateway_id: u128,
    pub realm_id: u128,
    pub project_id: String,
    pub generation: u64,
    pub state: String,
}

/// The view of [`CanonicalL3GatewayAttachmentRecord`].
#[verifier::ext_equal]
pub struct CanonicalL3GatewayAttachmentRecordView {
    pub id: u128,
    pub gateway_id: u128,
    pub realm_id: u128,
    pub project_id: Seq<char>,
    pub generation: u64,
    pub state: Seq<char>,
}

impl View for CanonicalL3GatewayAttachmentRecord {
    type V = CanonicalL3GatewayAttachmentRecordView;

    open spec fn view(&self) -> CanonicalL3GatewayAttachmentRecordView {
        CanonicalL3GatewayAttachmentRecordView {
            id: self.id,
            gateway_id: self.gateway_id,
            realm_id: self.realm_id,
            project_id: self.project_id@,
            generation: self.generation,
            state: self.state@,
        }
    }
}

impl Model for CanonicalL3GatewayAttachmentRecord {
    fn copy(&self) -> (r: Self) {
        CanonicalL3GatewayAttachmentRecord {
            id: self.id,
            gateway_id: self.gateway_id,
            realm_id: self.realm_id,
            project_id: self.project_id.clone(),
            generation: self.generation,
            state: self.state.clone(),
        }
    }

    fn same_as(&self, other: &Self) -> (r: bool) {
        self.id == other.id
            && self.gateway_id == other.gateway_id
            && self.realm_id == other.realm_id
            && same(self.project_id.as_str(), other.project_id.as_str())
            && self.generation == other.generation
            && same(self.state.as_str(), other.state.as_str())
    }
}

/// What the plan of a gateway is compiled from: the gateway as an active one, all relations that
/// attach realms to it, also those that are being undone, and those realms and the one that leads
/// outside, in the order of their identifiers.
#[derive(Clone, Debug, PartialEq, Eq)]
pub struct GatewayGraph {
    pub gateway: CanonicalL3GatewayRecord,
    pub attachments: Vec<CanonicalL3GatewayAttachmentRecord>,
    pub realms: Vec<CanonicalAddressRealmRecord>,
}

/// The view of [`GatewayGraph`].
#[verifier::ext_equal]
pub struct GatewayGraphView {
    pub gateway: CanonicalL3GatewayRecordView,
    pub attachments: Seq<CanonicalL3GatewayAttachmentRecordView>,
    pub realms: Seq<CanonicalAddressRealmRecordView>,
}

impl View for GatewayGraph {
    type V = GatewayGraphView;

    open spec fn view(&self) -> GatewayGraphView {
        GatewayGraphView {
            gateway: self.gateway@,
            attachments: views(self.attachments@),
            realms: views(self.realms@),
        }
    }
}

/// A policy rule of an endpoint.
#[derive(Clone, Debug, PartialEq, Eq)]
pub struct CanonicalNetworkPolicyRecord {
    pub id: u128,
    pub project_id: String,
    pub endpoint_id: u128,
    pub direction: String,
    pub protocol: String,
    pub port_min: Option<u16>,
    pub port_max: Option<u16>,
    pub source: Option<String>,
    pub destination: Option<String>,
    pub action: String,
    pub generation: u64,
    pub state: String,
}

/// The view of [`CanonicalNetworkPolicyRecord`].
#[verifier::ext_equal]
pub struct CanonicalNetworkPolicyRecordView {
    pub id: u128,
    pub project_id: Seq<char>,
    pub endpoint_id: u128,
    pub direction: Seq<char>,
    pub protocol: Seq<char>,
    pub port_min: Option<u16>,
    pub port_max: Option<u16>,
    pub source: Option<Seq<char>>,
    pub destination: Option<Seq<char>>,
    pub action: Seq<char>,
    pub generation: u64,
    pub state: Seq<char>,
}

impl View for CanonicalNetworkPolicyRecord {
    type V = CanonicalNetworkPolicyRecordView;

    open spec fn view(&self) -> CanonicalNetworkPolicyRecordView {
        CanonicalNetworkPolicyRecordView {
            id: self.id,
            project_id: self.project_id@,
            endpoint_id: self.endpoint_id,
            direction: self.direction@,
            protocol: self.protocol@,
            port_min: self.port_min,
            port_max: self.port_max,
            source: view_opt(self.source),
            destination: view_opt(self.destination),
            action: self.action@,
            generation: self.generation,
            state: self.state@,
        }
    }
}

impl Model for CanonicalNetworkPolicyRecord {
    fn copy(&self) -> (r: Self) {
        CanonicalNetworkPolicyRecord {
            id: self.id,
            project_id: self.project_id.clone(),
            endpoint_id: self.endpoint_id,
            direction: self.direction.clone(),
            protocol: self.protocol.clone(),
            port_min: self.port_min,
            port_max: self.port_max,
            source: copy_opt(&self.source),
            destination: copy_opt(&self.destination),
            action: self.action.clone(),
            generation: self.generation,
            state: self.state.clone(),
        }
    }

    fn same_as(&self, other: &Self) -> (r: bool) {
        self.id == other.id
            && same(self.project_id.as_str(), other.project_id.as_str())
            && self.endpoint_id == other.endpoint_id
            && same(self.direction.as_str(), other.direction.as_str())
            && same(self.protocol.as_str(), other.protocol.as_str())
            && self.port_min == other.port_min
            && self.port_max == other.port_max
            && same_opt(&self.source, &other.source)
            && same_opt(&self.destination, &other.destination)
            && same(self.action.as_str(), other.action.as_str())
            && self.generation == other.generation
            && same(self.state.as_str(), other.state.as_str())
    }
}

/// A policy that endpoints can share.
#[derive(Clone, Debug, PartialEq, Eq)]
pub struct CanonicalReusableNetworkPolicyRecord {
    pub id: u128,
    pub project_id: String,
    pub name: String,
    pub description: String,
    pub stateful_mode: String,
    pub unmatched_action: String,
    pub generation: u64,
    pub state: String,
    pub created_at: String,
    pub updated_at: String,
}

/// The view of [`CanonicalReusableNetworkPolicyRecord`].
#[verifier::ext_equal]
pub struct CanonicalReusableNetworkPolicyRecordView {
    pub id: u128,
    pub project_id: Seq<char>,
    pub name: Seq<char>,
    pub description: Seq<char>,
    pub stateful_mode: Seq<char>,
    pub unmatched_action: Seq<char>,
    pub generation: u64,
    pub state: Seq<char>,
    pub created_at: Seq<char>,
    pub updated_at: Seq<char>,
}

impl View for CanonicalReusableNetworkPolicyRecord {
    type V = CanonicalReusableNetworkPolicyRecordView;

    open spec fn view(&self) -> CanonicalReusableNetworkPolicyRecordView {
        CanonicalReusableNetworkPolicyRecordView {
            id: self.id,
            project_id: self.project_id@,
            name: self.name@,
            description: self.description@,
            stateful_mode: self.stateful_mode@,
            unmatched_action: self.unmatched_action@,
            generation: self.generation,
            state: self.state@,
            created_at: self.created_at@,
            updated_at: self.updated_at@,
        }
    }
}

impl Model for CanonicalReusableNetworkPolicyRecord {
    fn copy(&self) -> (r: Self) {
        CanonicalReusableNetworkPolicyRecord {
            id: self.id,
            project_id: self.project_id.clone(),
            name: self.name.clone(),
            description: self.description.clone(),
            stateful_mode: self.stateful_mode.clone(),
            unmatched_action: self.unmatched_action.clone(),
            generation: self.generation,
            state: self.state.clone(),
            created_at: self.created_at.clone(),
            updated_at: self.updated_at.clone(),
        }
    }

    fn same_as(&self, other: &Self) -> (r: bool) {
        self.id == other.id
            && same(self.project_id.as_str(), other.project_id.as_str())
            && same(self.name.as_str(), other.name.as_str())
            && same(self.description.as_str(), other.description.as_str())
            && same(self.stateful_mode.as_str(), other.stateful_mode.as_str())
            && same(self.unmatched_action.as_str(), other.unmatched_action.as_str())
            && self.generation == other.generation
            && same(self.state.as_str(), other.state.as_str())
            && same(self.created_at.as_str(), other.created_at.as_str())
            && same(self.updated_at.as_str(), other.updated_at.as_str())
    }
}

/// A rule of a policy that endpoints can share.
#[derive(Clone, Debug, PartialEq, Eq)]
pub struct CanonicalNetworkPolicyRuleRecord {
    pub id: u128,
    pub policy_id: u128,
    pub project_id: String,
    pub direction: String,
    pub protocol: String,
    pub address_family: String,
    pub port_min: Option<u16>,
    pub port_max: Option<u16>,
    pub remote_selector: Option<String>,
    pub action: String,
    pub state: String,
    pub generation: u64,
    pub enforcement_key: String,
}

/// The view of [`CanonicalNetworkPolicyRuleRecord`].
#[verifier::ext_equal]
pub struct CanonicalNetworkPolicyRuleRecordView {
    pub id: u128,
    pub policy_id: u128,
    pub project_id: Seq<char>,
    pub direction: Seq<char>,
    pub protocol: Seq<char>,
    pub address_family: Seq<char>,
    pub port_min: Option<u16>,
    pub port_max: Option<u16>,
    pub remote_selector: Option<Seq<char>>,
    pub action: Seq<char>,
    pub state: Seq<char>,
    pub generation: u64,
    pub enforcement_key: Seq<char>,
}

impl View for CanonicalNetworkPolicyRuleRecord {
    type V = CanonicalNetworkPolicyRuleRecordView;

    open spec fn view(&self) -> CanonicalNetworkPolicyRuleRecordView {
        CanonicalNetworkPolicyRuleRecordView {
            id: self.id,
            policy_id: self.policy_id,
            project_id: self.project_id@,
            direction: self.direction@,
            protocol: self.protocol@,
            address_family: self.address_family@,
            port_min: self.port_min,
            port_max: self.port_max,
            remote_selector: view_opt(self.remote_selector),
            action: self.action@,
            state: self.state@,
            generation: self.generation,
            enforcement_key: self.enforcement_key@,
        }
    }
}

impl Model for CanonicalNetworkPolicyRuleRecord {
    fn copy(&self) -> (r: Self) {
        CanonicalNetworkPolicyRuleRecord {
            id: self.id,
            policy_id: self.policy_id,
            project_id: self.project_id.clone(),
            direction: self.direction.clone(),
            protocol: self.protocol.clone(),
            address_family: self.address_family.clone(),
            port_min: self.port_min,
            port_max: self.port_max,
            remote_selector: copy_opt(&self.remote_selector),
            action: self.action.clone(),
            state: self.state.clone(),
            generation: self.generation,
            enforcement_key: self.enforcement_key.clone(),
        }
    }

    fn same_as(&self, other: &Self) -> (r: bool) {
        self.id == other.id
            && self.policy_id == other.policy_id
            && same(self.project_id.as_str(), other.project_id.as_str())
            && same(self.direction.as_str(), other.direction.as_str())
            && same(self.protocol.as_str(), other.protocol.as_str())
            && same(self.address_family.as_str(), other.address_family.as_str())
            && self.port_min == other.port_min
            && self.port_max == other.port_max
            && same_opt(&self.remote_selector, &other.remote_selector)
            && same(self.action.as_str(), other.action.as_str())
            && same(self.state.as_str(), other.state.as_str())
            && self.generation == other.generation
            && same(self.enforcement_key.as_str(), other.enforcement_key.as_str())
    }
}

/// A policy that is attached to an endpoint.
#[derive(Clone, Debug, PartialEq, Eq)]
pub struct CanonicalPolicyAttachmentRecord {
    pub id: u128,
    pub policy_id: u128,
    pub endpoint_id: u128,
    pub project_id: String,
    pub state: String,
    pub generation: u64,
}

/// The view of [`CanonicalPolicyAttachmentRecord`].
#[verifier::ext_equal]
pub struct CanonicalPolicyAttachmentRecordView {
    pub id: u128,
    pub policy_id: u128,
    pub endpoint_id: u128,
    pub project_id: Seq<char>,
    pub state: Seq<char>,
    pub generation: u64,
}

impl View for CanonicalPolicyAttachmentRecord {
    type V = CanonicalPolicyAttachmentRecordView;

    open spec fn view(&self) -> CanonicalPolicyAttachmentRecordView {
        CanonicalPolicyAttachmentRecordView {
            id: self.id,
            policy_id: self.policy_id,
            endpoint_id: self.endpoint_id,
            project_id: self.project_id@,
            state: self.state@,
            generation: self.generation,
        }
    }
}

impl Model for CanonicalPolicyAttachmentRecord {
    fn copy(&self) -> (r: Self) {
        CanonicalPolicyAttachmentRecord {
            id: self.id,
            policy_id: self.policy_id,
            endpoint_id: self.endpoint_id,
            project_id: self.project_id.clone(),
            state: self.state.clone(),
            generation: self.generation,
        }
    }

    fn same_as(&self, other: &Self) -> (r: bool) {
        self.id == other.id
            && self.policy_id == other.policy_id
            && self.endpoint_id == other.endpoint_id
            && same(self.project_id.as_str(), other.project_id.as_str())
            && same(self.state.as_str(), other.state.as_str())
            && self.generation == other.generation
    }
}

/// What a provider holds for a realm.
#[derive(Clone, Debug, PartialEq, Eq)]
pub struct CanonicalRealmBindingRecord {
    pub fabric_domain_id: String,
    pub realm_id: u128,
    pub provider_kind: String,
    pub provider_segment_id: u32,
    pub binding_generation: u64,
    pub state: String,
}

/// The view of [`CanonicalRealmBindingRecord`].
#[verifier::ext_equal]
pub struct CanonicalRealmBindingRecordView {
    pub fabric_domain_id: Seq<char>,
    pub realm_id: u128,
    pub provider_kind: Seq<char>,
    pub provider_segment_id: u32,
    pub binding_generation: u64,
    pub state: Seq<char>,
}

impl View for CanonicalRealmBindingRecord {
    type V = CanonicalRealmBindingRecordView;

    open spec fn view(&self) -> CanonicalRealmBindingRecordView {
        CanonicalRealmBindingRecordView {
            fabric_domain_id: self.fabric_domain_id@,
            realm_id: self.realm_id,
            provider_kind: self.provider_kind@,
            provider_segment_id: self.provider_segment_id,
            binding_generation: self.binding_generation,
            state: self.state@,
        }
    }
}

impl Model for CanonicalRealmBindingRecord {
    fn copy(&self) -> (r: Self) {
        CanonicalRealmBindingRecord {
            fabric_domain_id: self.fabric_domain_id.clone(),
            realm_id: self.realm_id,
            provider_kind: self.provider_kind.clone(),
            provider_segment_id: self.provider_segment_id,
            binding_generation: self.binding_generation,
            state: self.state.clone(),
        }
    }

    fn same_as(&self, other: &Self) -> (r: bool) {
        same(self.fabric_domain_id.as_str(), other.fabric_domain_id.as_str())
            && self.realm_id == other.realm_id
            && same(self.provider_kind.as_str(), other.provider_kind.as_str())
            && self.provider_segment_id == other.provider_segment_id
            && self.binding_generation == other.binding_generation
            && same(self.state.as_str(), other.state.as_str())
    }
}

/// A security group as clients see it.
#[derive(Clone, Debug, PartialEq, Eq)]
pub struct SecurityGroupRecord {
    pub id: u128,
    pub project_id: String,
    pub name: String,
    pub description: String,
}

/// The view of [`SecurityGroupRecord`].
#[verifier::ext_equal]
pub struct SecurityGroupRecordView {
    pub id: u128,
    pub project_id: Seq<char>,
    pub name: Seq<char>,
    pub description: Seq<char>,
}

impl View for SecurityGroupRecord {
    type V = SecurityGroupRecordView;

    open spec fn view(&self) -> SecurityGroupRecordView {
        SecurityGroupRecordView {
            id: self.id,
            project_id: self.project_id@,
            name: self.name@,
            description: self.description@,
        }
    }
}

impl Model for SecurityGroupRecord {
    fn copy(&self) -> (r: Self) {
        SecurityGroupRecord {
            id: self.id,
            project_id: self.project_id.clone(),
            name: self.name.clone(),
            description: self.description.clone(),
        }
    }

    fn same_as(&self, other: &Self) -> (r: bool) {
        self.id == other.id
            && same(self.project_id.as_str(), other.project_id.as_str())
            && same(self.name.as_str(), other.name.as_str())
            && same(self.description.as_str(), other.description.as_str())
    }
}

/// A rule of a security group as clients see it.
#[derive(Clone, Debug, PartialEq, Eq)]
pub struct SecurityGroupRuleRecord {
    pub id: u128,
    pub security_group_id: u128,
    pub project_id: String,
    pub direction: String,
    pub protocol: String,
    pub port_min: Option<u16>,
    pub port_max: Option<u16>,
    pub remote_ip_prefix: Option<String>,
}

/// The view of [`SecurityGroupRuleRecord`].
#[verifier::ext_equal]
pub struct SecurityGroupRuleRecordView {
    pub id: u128,
    pub security_group_id: u128,
    pub project_id: Seq<char>,
    pub direction: Seq<char>,
    pub protocol: Seq<char>,
    pub port_min: Option<u16>,
    pub port_max: Option<u16>,
    pub remote_ip_prefix: Option<Seq<char>>,
}

impl View for SecurityGroupRuleRecord {
    type V = SecurityGroupRuleRecordView;

    open spec fn view(&self) -> SecurityGroupRuleRecordView {
        SecurityGroupRuleRecordView {
            id: self.id,
            security_group_id: self.security_group_id,
            project_id: self.project_id@,
            direction: self.direction@,
            protocol: self.protocol@,
            port_min: self.port_min,
            port_max: self.port_max,
            remote_ip_prefix: view_opt(self.remote_ip_prefix),
        }
    }
}

impl Model for SecurityGroupRuleRecord {
    fn copy(&self) -> (r: Self) {
        SecurityGroupRuleRecord {
            id: self.id,
            security_group_id: self.security_group_id,
            project_id: self.project_id.clone(),
            direction: self.direction.clone(),
            protocol: self.protocol.clone(),
            port_min: self.port_min,
            port_max: self.port_max,
            remote_ip_prefix: copy_opt(&self.remote_ip_prefix),
        }
    }

    fn same_as(&self, other: &Self) -> (r: bool) {
        self.id == other.id
            && self.security_group_id == other.security_group_id
            && same(self.project_id.as_str(), other.project_id.as_str())
            && same(self.direction.as_str(), other.direction.as_str())
            && same(self.protocol.as_str(), other.protocol.as_str())
            && self.port_min == other.port_min
            && self.port_max == other.port_max
            && same_opt(&self.remote_ip_prefix, &other.remote_ip_prefix)
    }
}

/// A security group of a port.
#[derive(Clone, Debug, PartialEq, Eq)]
pub struct SecurityGroupBindingRecord {
    pub project_id: String,
    pub endpoint_id: u128,
    pub security_group_id: u128,
}

/// The view of [`SecurityGroupBindingRecord`].
#[verifier::ext_equal]
pub struct SecurityGroupBindingRecordView {
    pub project_id: Seq<char>,
    pub endpoint_id: u128,
    pub security_group_id: u128,
}

impl View for SecurityGroupBindingRecord {
    type V = SecurityGroupBindingRecordView;

    open spec fn view(&self) -> SecurityGroupBindingRecordView {
        SecurityGroupBindingRecordView {
            project_id: self.project_id@,
            endpoint_id: self.endpoint_id,
            security_group_id: self.security_group_id,
        }
    }
}

impl Model for SecurityGroupBindingRecord {
    fn copy(&self) -> (r: Self) {
        SecurityGroupBindingRecord {
            project_id: self.project_id.clone(),
            endpoint_id: self.endpoint_id,
            security_group_id: self.security_group_id,
        }
    }

    fn same_as(&self, other: &Self) -> (r: bool) {
        same(self.project_id.as_str(), other.project_id.as_str())
            && self.endpoint_id == other.endpoint_id
            && self.security_group_id == other.security_group_id
    }
}

/// The lifecycle of a resource.
#[derive(Clone, Debug, PartialEq, Eq)]
pub struct ResourceRecord {
    pub id: u128,
    pub kind: String,
    pub project_id: String,
    pub generation: i64,
    pub observed_generation: i64,
    pub desired_state: String,
    pub observed_state: String,
    pub provider_id: Option<String>,
}

/// The view of [`ResourceRecord`].
#[verifier::ext_equal]
pub struct ResourceRecordView {
    pub id: u128,
    pub kind: Seq<char>,
    pub project_id: Seq<char>,
    pub generation: i64,
    pub observed_generation: i64,
    pub desired_state: Seq<char>,
    pub observed_state: Seq<char>,
    pub provider_id: Option<Seq<char>>,
}

impl View for ResourceRecord {
    type V = ResourceRecordView;

    open spec fn view(&self) -> ResourceRecordView {
        ResourceRecordView {
            id: self.id,
            kind: self.kind@,
            project_id: self.project_id@,
            generation: self.generation,
            observed_generation: self.observed_generation,
            desired_state: self.desired_state@,
            observed_state: self.observed_state@,
            provider_id: view_opt(self.provider_id),
        }
    }
}

impl Model for ResourceRecord {
    fn copy(&self) -> (r: Self) {
        ResourceRecord {
            id: self.id,
            kind: self.kind.clone(),
            project_id: self.project_id.clone(),
            generation: self.generation,
            observed_generation: self.observed_generation,
            desired_state: self.desired_state.clone(),
            observed_state: self.observed_state.clone(),
            provider_id: copy_opt(&self.provider_id),
        }
    }

    fn same_as(&self, other: &Self) -> (r: bool) {
        self.id == other.id
            && same(self.kind.as_str(), other.kind.as_str())
            && same(self.project_id.as_str(), other.project_id.as_str())
            && self.generation == other.generation
            && self.observed_generation == other.observed_generation
            && same(self.desired_state.as_str(), other.desired_state.as_str())
            && same(self.observed_state.as_str(), other.observed_state.as_str())
            && same_opt(&self.provider_id, &other.provider_id)
    }
}

/// An operation that takes several steps.
#[derive(Clone, Debug, PartialEq, Eq)]
pub struct OperationRecord {
    pub id: u128,
    pub resource_id: u128,
    pub kind: String,
}

/// The view of [`OperationRecord`].
#[verifier::ext_equal]
pub struct OperationRecordView {
    pub id: u128,
    pub resource_id: u128,
    pub kind: Seq<char>,
}

impl View for OperationRecord {
    type V = OperationRecordView;

    open spec fn view(&self) -> OperationRecordView {
        OperationRecordView {
            id: self.id,
            resource_id: self.resource_id,
            kind: self.kind@,
        }
    }
}

impl Model for OperationRecord {
    fn copy(&self) -> (r: Self) {
        OperationRecord {
            id: self.id,
            resource_id: self.resource_id,
            kind: self.kind.clone(),
        }
    }

    fn same_as(&self, other: &Self) -> (r: bool) {
        self.id == other.id
            && self.resource_id == other.resource_id
            && same(self.kind.as_str(), other.kind.as_str())
    }
}

/// What is known of the course of an operation.
#[derive(Clone, Debug, PartialEq, Eq)]
pub struct CanonicalOperationRecord {
    pub owner_scope: String,
    pub resource_id: Option<String>,
    pub attempt: u32,
    pub started_at: Option<String>,
    pub created_at: String,
}

/// The view of [`CanonicalOperationRecord`].
#[verifier::ext_equal]
pub struct CanonicalOperationRecordView {
    pub owner_scope: Seq<char>,
    pub resource_id: Option<Seq<char>>,
    pub attempt: u32,
    pub started_at: Option<Seq<char>>,
    pub created_at: Seq<char>,
}

impl View for CanonicalOperationRecord {
    type V = CanonicalOperationRecordView;

    open spec fn view(&self) -> CanonicalOperationRecordView {
        CanonicalOperationRecordView {
            owner_scope: self.owner_scope@,
            resource_id: view_opt(self.resource_id),
            attempt: self.attempt,
            started_at: view_opt(self.started_at),
            created_at: self.created_at@,
        }
    }
}

impl Model for CanonicalOperationRecord {
    fn copy(&self) -> (r: Self) {
        CanonicalOperationRecord {
            owner_scope: self.owner_scope.clone(),
            resource_id: copy_opt(&self.resource_id),
            attempt: self.attempt,
            started_at: copy_opt(&self.started_at),
            created_at: self.created_at.clone(),
        }
    }

    fn same_as(&self, other: &Self) -> (r: bool) {
        same(self.owner_scope.as_str(), other.owner_scope.as_str())
            && same_opt(&self.resource_id, &other.resource_id)
            && self.attempt == other.attempt
            && same_opt(&self.started_at, &other.started_at)
            && same(self.created_at.as_str(), other.created_at.as_str())
    }
}

/// A step in the course of an operation.
#[derive(Clone, Debug, PartialEq, Eq)]
pub struct LifecycleUpdate {
    pub state: OperationState,
    pub attempt: u32,
    pub started_at: Option<String>,
    pub finished_at: Option<String>,
    pub error: Option<String>,
}

/// The view of [`LifecycleUpdate`].
#[verifier::ext_equal]
pub struct LifecycleUpdateView {
    pub state: OperationState,
    pub attempt: u32,
    pub started_at: Option<Seq<char>>,
    pub finished_at: Option<Seq<char>>,
    pub error: Option<Seq<char>>,
}

impl View for LifecycleUpdate {
    type V = LifecycleUpdateView;

    open spec fn view(&self) -> LifecycleUpdateView {
        LifecycleUpdateView {
            state: self.state,
            attempt: self.attempt,
            started_at: view_opt(self.started_at),
            finished_at: view_opt(self.finished_at),
            error: view_opt(self.error),
        }
    }
}

impl Model for LifecycleUpdate {
    fn copy(&self) -> (r: Self) {
        LifecycleUpdate {
            state: self.state,
            attempt: self.attempt,
            started_at: copy_opt(&self.started_at),
            finished_at: copy_opt(&self.finished_at),
            error: copy_opt(&self.error),
        }
    }

    fn same_as(&self, other: &Self) -> (r: bool) {
        self.state == other.state
            && self.attempt == other.attempt
            && same_opt(&self.started_at, &other.started_at)
            && same_opt(&self.finished_at, &other.finished_at)
            && same_opt(&self.error, &other.error)
    }
}

/// The operation that deletes a realm, as it is put to the store.
#[derive(Clone, Debug, PartialEq, Eq)]
pub struct RealmDeletionRequest {
    /// The identifier of the operation.
    pub operation_id: u128,
    /// What the operation does to its resource.
    pub kind: String,
    /// How far the operation is when it is accepted.
    pub state: OperationState,
    /// The service that performs the operation.
    pub service: String,
    /// The action that was requested.
    pub action: String,
    /// Who performs the operation.
    pub actor: String,
    /// The project in which the operation is accepted.
    pub owner_scope: String,
    /// The kind of the resource.
    pub resource_type: String,
    /// The realm.
    pub resource_id: u128,
    /// The key by which a repetition of the request is recognized.
    pub idempotency_key: String,
    /// What was requested, as JSON.
    pub payload: String,
}

/// The view of [`RealmDeletionRequest`].
#[verifier::ext_equal]
pub struct RealmDeletionRequestView {
    pub operation_id: u128,
    pub kind: Seq<char>,
    pub state: OperationState,
    pub service: Seq<char>,
    pub action: Seq<char>,
    pub actor: Seq<char>,
    pub owner_scope: Seq<char>,
    pub resource_type: Seq<char>,
    pub resource_id: u128,
    pub idempotency_key: Seq<char>,
    pub payload: Seq<char>,
}

impl View for RealmDeletionRequest {
    type V = RealmDeletionRequestView;

    open spec fn view(&self) -> RealmDeletionRequestView {
        RealmDeletionRequestView {
            operation_id: self.operation_id,
            kind: self.kind@,
            state: self.state,
            service: self.service@,
            action: self.action@,
            actor: self.actor@,
            owner_scope: self.owner_scope@,
            resource_type: self.resource_type@,
            resource_id: self.resource_id,
            idempotency_key: self.idempotency_key@,
            payload: self.payload@,
        }
    }
}

/// An operation that was accepted, or had been before.
#[derive(Clone, Debug, PartialEq, Eq)]
pub struct AcceptedOperation {
    pub operation_id: u128,
    pub created_at: String,
}

/// The view of [`AcceptedOperation`].
#[verifier::ext_equal]
pub struct AcceptedOperationView {
    pub operation_id: u128,
    pub created_at: Seq<char>,
}

impl View for AcceptedOperation {
    type V = AcceptedOperationView;

    open spec fn view(&self) -> AcceptedOperationView {
        AcceptedOperationView {
            operation_id: self.operation_id,
            created_at: self.created_at@,
        }
    }
}

impl Model for AcceptedOperation {
    fn copy(&self) -> (r: Self) {
        AcceptedOperation {
            operation_id: self.operation_id,
            created_at: self.created_at.clone(),
        }
    }

    fn same_as(&self, other: &Self) -> (r: bool) {
        self.operation_id == other.operation_id
            && same(self.created_at.as_str(), other.created_at.as_str())
    }
}

/// What is told of a request, for later inspection. The action and the kind of the resource are
/// words with the name of the service before them.
#[derive(Clone, Debug, PartialEq, Eq)]
pub struct AuditRecord {
    pub action: String,
    pub resource: Option<String>,
    pub resource_id: Option<u128>,
    pub owner: Option<String>,
    pub outcome: AuditOutcome,
    /// What was decided, where the request was refused.
    pub decision: Option<Decision>,
    pub reason: Option<String>,
}

/// The view of [`AuditRecord`].
#[verifier::ext_equal]
pub struct AuditRecordView {
    pub action: Seq<char>,
    pub resource: Option<Seq<char>>,
    pub resource_id: Option<u128>,
    pub owner: Option<Seq<char>>,
    pub outcome: AuditOutcome,
    pub decision: Option<Decision>,
    pub reason: Option<Seq<char>>,
}

impl View for AuditRecord {
    type V = AuditRecordView;

    open spec fn view(&self) -> AuditRecordView {
        AuditRecordView {
            action: self.action@,
            resource: view_opt(self.resource),
            resource_id: self.resource_id,
            owner: view_opt(self.owner),
            outcome: self.outcome,
            decision: self.decision,
            reason: view_opt(self.reason),
        }
    }
}

impl Model for AuditRecord {
    fn copy(&self) -> (r: Self) {
        AuditRecord {
            action: self.action.clone(),
            resource: copy_opt(&self.resource),
            resource_id: self.resource_id,
            owner: copy_opt(&self.owner),
            outcome: self.outcome,
            decision: self.decision,
            reason: copy_opt(&self.reason),
        }
    }

    fn same_as(&self, other: &Self) -> (r: bool) {
        same(self.action.as_str(), other.action.as_str())
            && same_opt(&self.resource, &other.resource)
            && self.resource_id == other.resource_id
            && same_opt(&self.owner, &other.owner)
            && self.outcome == other.outcome
            && self.decision == other.decision
            && same_opt(&self.reason, &other.reason)
    }
}

} // verus!
