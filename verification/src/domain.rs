//! The vocabulary of canonical network intent.
use crate::ipv4::Ipv4Prefix;
use crate::model::{copy_list, same_list, views, Model};
use crate::text::same;
use vstd::prelude::*;

verus! {

/// The direction of traffic that a policy speaks of, seen from the endpoint.
#[derive(Clone, Copy, Debug, PartialEq, Eq, Structural)]
pub enum PolicyDirection {
    Ingress,
    Egress,
}

/// The protocol that a policy speaks of.
#[derive(Clone, Copy, Debug, PartialEq, Eq, Structural)]
pub enum NetworkProtocol {
    Any,
    Tcp,
    Udp,
    Icmp,
}

/// What a policy does with matching traffic.
#[derive(Clone, Copy, Debug, PartialEq, Eq, Structural)]
pub enum PolicyAction {
    Allow,
    Deny,
}

/// Whether replies to accepted traffic are accepted.
#[derive(Clone, Copy, Debug, PartialEq, Eq, Structural)]
pub enum PolicyStatefulMode {
    Stateful,
    Stateless,
}

/// An inclusive range of ports.
#[derive(Clone, Copy, Debug, PartialEq, Eq, Structural)]
pub struct PortRange {
    pub start: u16,
    pub end: u16,
}

impl View for PortRange {
    type V = PortRange;

    open spec fn view(&self) -> PortRange {
        *self
    }
}

impl Model for PortRange {
    fn copy(&self) -> (r: Self) {
        *self
    }

    fn same_as(&self, other: &Self) -> (r: bool) {
        *self == *other
    }
}

/// A rule on the traffic of one endpoint.
#[derive(Clone, Copy, Debug, PartialEq, Eq, Structural)]
pub struct PolicyIntent {
    pub id: u128,
    pub endpoint_id: u128,
    pub direction: PolicyDirection,
    pub protocol: NetworkProtocol,
    pub ports: Option<PortRange>,
    pub source: Option<Ipv4Prefix>,
    pub destination: Option<Ipv4Prefix>,
    pub action: PolicyAction,
}

impl View for PolicyIntent {
    type V = PolicyIntent;

    open spec fn view(&self) -> PolicyIntent {
        *self
    }
}

impl Model for PolicyIntent {
    fn copy(&self) -> (r: Self) {
        *self
    }

    fn same_as(&self, other: &Self) -> (r: bool) {
        *self == *other
    }
}

/// What happens to traffic of an endpoint that no rule matches.
#[derive(Clone, Copy, Debug, PartialEq, Eq, Structural)]
pub struct PolicyDefaultIntent {
    pub policy_id: u128,
    pub endpoint_id: u128,
    pub unmatched_action: PolicyAction,
    pub stateful_mode: PolicyStatefulMode,
    pub generation: u64,
}

impl View for PolicyDefaultIntent {
    type V = PolicyDefaultIntent;

    open spec fn view(&self) -> PolicyDefaultIntent {
        *self
    }
}

impl Model for PolicyDefaultIntent {
    fn copy(&self) -> (r: Self) {
        *self
    }

    fn same_as(&self, other: &Self) -> (r: bool) {
        *self == *other
    }
}

/// A public address that stands for an endpoint.
#[derive(Clone, Debug, PartialEq, Eq)]
pub struct PublicAddressBindingIntent {
    pub id: u128,
    pub project_id: String,
    pub public_address: u32,
    pub endpoint_id: u128,
    pub generation: u64,
}

/// The view of [`PublicAddressBindingIntent`].
#[verifier::ext_equal]
pub struct PublicAddressBindingIntentView {
    pub id: u128,
    pub project_id: Seq<char>,
    pub public_address: u32,
    pub endpoint_id: u128,
    pub generation: u64,
}

impl View for PublicAddressBindingIntent {
    type V = PublicAddressBindingIntentView;

    open spec fn view(&self) -> PublicAddressBindingIntentView {
        PublicAddressBindingIntentView {
            id: self.id,
            project_id: self.project_id@,
            public_address: self.public_address,
            endpoint_id: self.endpoint_id,
            generation: self.generation,
        }
    }
}

impl Model for PublicAddressBindingIntent {
    fn copy(&self) -> (r: Self) {
        PublicAddressBindingIntent {
            id: self.id,
            project_id: self.project_id.clone(),
            public_address: self.public_address,
            endpoint_id: self.endpoint_id,
            generation: self.generation,
        }
    }

    fn same_as(&self, other: &Self) -> (r: bool) {
        self.id == other.id
            && same(self.project_id.as_str(), other.project_id.as_str())
            && self.public_address == other.public_address
            && self.endpoint_id == other.endpoint_id
            && self.generation == other.generation
    }
}

/// A route of a network.
#[derive(Clone, Copy, Debug, PartialEq, Eq, Structural)]
pub struct RouteIntent {
    pub destination: Ipv4Prefix,
    pub next_hop: Option<u32>,
}

impl View for RouteIntent {
    type V = RouteIntent;

    open spec fn view(&self) -> RouteIntent {
        *self
    }
}

impl Model for RouteIntent {
    fn copy(&self) -> (r: Self) {
        *self
    }

    fn same_as(&self, other: &Self) -> (r: bool) {
        *self == *other
    }
}

/// A way out of a network to a destination.
#[derive(Clone, Copy, Debug, PartialEq, Eq, Structural)]
pub struct GatewayIntent {
    pub destination: Ipv4Prefix,
    pub gateway: u32,
    pub external: bool,
}

impl View for GatewayIntent {
    type V = GatewayIntent;

    open spec fn view(&self) -> GatewayIntent {
        *self
    }
}

impl Model for GatewayIntent {
    fn copy(&self) -> (r: Self) {
        *self
    }

    fn same_as(&self, other: &Self) -> (r: bool) {
        *self == *other
    }
}

/// A way from a network to an external realm.
#[derive(Clone, Copy, Debug, PartialEq, Eq, Structural)]
pub struct EgressIntent {
    pub external_realm_id: u128,
    pub enabled: bool,
    pub nat: bool,
}

impl View for EgressIntent {
    type V = EgressIntent;

    open spec fn view(&self) -> EgressIntent {
        *self
    }
}

impl Model for EgressIntent {
    fn copy(&self) -> (r: Self) {
        *self
    }

    fn same_as(&self, other: &Self) -> (r: bool) {
        *self == *other
    }
}

/// An endpoint of a network.
#[derive(Clone, Debug, PartialEq, Eq)]
pub struct EndpointIntent {
    pub id: u128,
    pub project_id: String,
    pub realm_id: u128,
    pub mac: String,
    pub fixed_ip: u32,
    pub generation: u64,
}

/// The view of [`EndpointIntent`].
#[verifier::ext_equal]
pub struct EndpointIntentView {
    pub id: u128,
    pub project_id: Seq<char>,
    pub realm_id: u128,
    pub mac: Seq<char>,
    pub fixed_ip: u32,
    pub generation: u64,
}

impl View for EndpointIntent {
    type V = EndpointIntentView;

    open spec fn view(&self) -> EndpointIntentView {
        EndpointIntentView {
            id: self.id,
            project_id: self.project_id@,
            realm_id: self.realm_id,
            mac: self.mac@,
            fixed_ip: self.fixed_ip,
            generation: self.generation,
        }
    }
}

impl Model for EndpointIntent {
    fn copy(&self) -> (r: Self) {
        EndpointIntent {
            id: self.id,
            project_id: self.project_id.clone(),
            realm_id: self.realm_id,
            mac: self.mac.clone(),
            fixed_ip: self.fixed_ip,
            generation: self.generation,
        }
    }

    fn same_as(&self, other: &Self) -> (r: bool) {
        self.id == other.id
            && same(self.project_id.as_str(), other.project_id.as_str())
            && self.realm_id == other.realm_id
            && same(self.mac.as_str(), other.mac.as_str())
            && self.fixed_ip == other.fixed_ip
            && self.generation == other.generation
    }
}

/// A space in which addresses are interpreted.
#[derive(Clone, Debug, PartialEq, Eq)]
pub struct AddressRealm {
    pub id: u128,
    pub network_id: u128,
    pub project_id: String,
    pub prefix: Ipv4Prefix,
    pub overlapping_prefixes: bool,
}

/// The view of [`AddressRealm`].
#[verifier::ext_equal]
pub struct AddressRealmView {
    pub id: u128,
    pub network_id: u128,
    pub project_id: Seq<char>,
    pub prefix: Ipv4Prefix,
    pub overlapping_prefixes: bool,
}

impl View for AddressRealm {
    type V = AddressRealmView;

    open spec fn view(&self) -> AddressRealmView {
        AddressRealmView {
            id: self.id,
            network_id: self.network_id,
            project_id: self.project_id@,
            prefix: self.prefix,
            overlapping_prefixes: self.overlapping_prefixes,
        }
    }
}

impl Model for AddressRealm {
    fn copy(&self) -> (r: Self) {
        AddressRealm {
            id: self.id,
            network_id: self.network_id,
            project_id: self.project_id.clone(),
            prefix: self.prefix,
            overlapping_prefixes: self.overlapping_prefixes,
        }
    }

    fn same_as(&self, other: &Self) -> (r: bool) {
        self.id == other.id
            && self.network_id == other.network_id
            && same(self.project_id.as_str(), other.project_id.as_str())
            && self.prefix == other.prefix
            && self.overlapping_prefixes == other.overlapping_prefixes
    }
}

/// A range of addresses of a realm from which endpoints get theirs.
#[derive(Clone, Debug, PartialEq, Eq)]
pub struct AddressPool {
    pub id: u128,
    pub realm_id: u128,
    pub project_id: String,
    pub prefix: Ipv4Prefix,
    pub gateway: Option<u32>,
    pub first_usable: u32,
    pub last_usable: u32,
}

/// The view of [`AddressPool`].
#[verifier::ext_equal]
pub struct AddressPoolView {
    pub id: u128,
    pub realm_id: u128,
    pub project_id: Seq<char>,
    pub prefix: Ipv4Prefix,
    pub gateway: Option<u32>,
    pub first_usable: u32,
    pub last_usable: u32,
}

impl View for AddressPool {
    type V = AddressPoolView;

    open spec fn view(&self) -> AddressPoolView {
        AddressPoolView {
            id: self.id,
            realm_id: self.realm_id,
            project_id: self.project_id@,
            prefix: self.prefix,
            gateway: self.gateway,
            first_usable: self.first_usable,
            last_usable: self.last_usable,
        }
    }
}

impl Model for AddressPool {
    fn copy(&self) -> (r: Self) {
        AddressPool {
            id: self.id,
            realm_id: self.realm_id,
            project_id: self.project_id.clone(),
            prefix: self.prefix,
            gateway: self.gateway,
            first_usable: self.first_usable,
            last_usable: self.last_usable,
        }
    }

    fn same_as(&self, other: &Self) -> (r: bool) {
        self.id == other.id
            && self.realm_id == other.realm_id
            && same(self.project_id.as_str(), other.project_id.as_str())
            && self.prefix == other.prefix
            && self.gateway == other.gateway
            && self.first_usable == other.first_usable
            && self.last_usable == other.last_usable
    }
}

/// What a provider can realize.
#[derive(Clone, Copy, Debug, PartialEq, Eq, Structural)]
pub enum NetworkCapability {
    Ipv4,
    EndpointAttachment,
    Routing,
    Nat,
    PublicAddressRealization,
    StatefulPolicy,
    OverlappingAddressRealms,
    EncapsulationModes,
}

/// The state of a network intent.
#[derive(Clone, Copy, Debug, PartialEq, Eq, Structural)]
pub enum NetworkIntentState {
    Requested,
    Active,
    Deleting,
}

/// The canonical intent of a network.
#[derive(Clone, Debug, PartialEq, Eq)]
pub struct NetworkIntent {
    pub id: u128,
    pub project_id: String,
    pub realm: AddressRealm,
    pub address_pools: Vec<AddressPool>,
    pub endpoints: Vec<EndpointIntent>,
    pub routes: Vec<RouteIntent>,
    pub gateways: Vec<GatewayIntent>,
    pub egress: Vec<EgressIntent>,
    pub public_addresses: Vec<PublicAddressBindingIntent>,
    pub policies: Vec<PolicyIntent>,
    pub generation: u64,
    pub state: NetworkIntentState,
}

/// The view of [`NetworkIntent`].
#[verifier::ext_equal]
pub struct NetworkIntentView {
    pub id: u128,
    pub project_id: Seq<char>,
    pub realm: AddressRealmView,
    pub address_pools: Seq<AddressPoolView>,
    pub endpoints: Seq<EndpointIntentView>,
    pub routes: Seq<RouteIntent>,
    pub gateways: Seq<GatewayIntent>,
    pub egress: Seq<EgressIntent>,
    pub public_addresses: Seq<PublicAddressBindingIntentView>,
    pub policies: Seq<PolicyIntent>,
    pub generation: u64,
    pub state: NetworkIntentState,
}

impl View for NetworkIntent {
    type V = NetworkIntentView;

    open spec fn view(&self) -> NetworkIntentView {
        NetworkIntentView {
            id: self.id,
            project_id: self.project_id@,
            realm: self.realm@,
            address_pools: views(self.address_pools@),
            endpoints: views(self.endpoints@),
            routes: views(self.routes@),
            gateways: views(self.gateways@),
            egress: views(self.egress@),
            public_addresses: views(self.public_addresses@),
            policies: views(self.policies@),
            generation: self.generation,
            state: self.state,
        }
    }
}

impl Model for NetworkIntent {
    fn copy(&self) -> (r: Self) {
        NetworkIntent {
            id: self.id,
            project_id: self.project_id.clone(),
            realm: self.realm.copy(),
            address_pools: copy_list(&self.address_pools),
            endpoints: copy_list(&self.endpoints),
            routes: copy_list(&self.routes),
            gateways: copy_list(&self.gateways),
            egress: copy_list(&self.egress),
            public_addresses: copy_list(&self.public_addresses),
            policies: copy_list(&self.policies),
            generation: self.generation,
            state: self.state,
        }
    }

    fn same_as(&self, other: &Self) -> (r: bool) {
        self.id == other.id
            && same(self.project_id.as_str(), other.project_id.as_str())
            && self.realm.same_as(&other.realm)
            && same_list(&self.address_pools, &other.address_pools)
            && same_list(&self.endpoints, &other.endpoints)
            && same_list(&self.routes, &other.routes)
            && same_list(&self.gateways, &other.gateways)
            && same_list(&self.egress, &other.egress)
            && same_list(&self.public_addresses, &other.public_addresses)
            && same_list(&self.policies, &other.policies)
            && self.generation == other.generation
            && self.state == other.state
    }
}

/// A public address that is realized for an endpoint of a realm.
#[derive(Clone, Copy, Debug, PartialEq, Eq, Structural)]
pub struct OwnedBinding {
    pub realm_id: u128,
    pub endpoint_id: u128,
    pub private_address: u32,
    pub public_address: u32,
}

impl View for OwnedBinding {
    type V = OwnedBinding;

    open spec fn view(&self) -> OwnedBinding {
        *self
    }
}

impl Model for OwnedBinding {
    fn copy(&self) -> (r: Self) {
        *self
    }

    fn same_as(&self, other: &Self) -> (r: bool) {
        *self == *other
    }
}

} // verus!
