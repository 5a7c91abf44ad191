//! The semantic plan of one node.
use crate::domain::{
    EgressIntent, GatewayIntent, NetworkCapability, PolicyDefaultIntent, PolicyIntent,
    PublicAddressBindingIntent, PublicAddressBindingIntentView, RouteIntent,
};
use crate::fabric::plan::{NamespacedRoutedFabricPlan, NamespacedRoutedFabricPlanView};
use crate::ipv4::Ipv4Prefix;
use crate::model::{copy_list, copy_opt, same_list, same_opt, view_opt, views, Model};
use crate::table::ById;
use crate::text::same;
use vstd::prelude::*;

verus! {

/// The version of the plan's schema.
pub const NODE_NETWORK_PLAN_SCHEMA_VERSION: u16 = 1;

/// One intent of a node's plan.
#[derive(Clone, Debug, PartialEq, Eq)]
pub enum NetworkPlanIntent {
    AddressRealm { realm_id: u128, prefix: Ipv4Prefix, gateway: u32 },
    EndpointAttachment { endpoint_id: u128, mac: String, fixed_ip: u32, generation: u64 },
    AddressAssignment { endpoint_id: u128, address: u32, generation: u64 },
    Route(RouteIntent),
    Gateway(GatewayIntent),
    Egress(EgressIntent),
    PublicAddressBinding(PublicAddressBindingIntent),
    Policy(PolicyIntent),
    PolicyDefault(PolicyDefaultIntent),
}

/// The view of [`NetworkPlanIntent`].
#[verifier::ext_equal]
pub enum NetworkPlanIntentView {
    AddressRealm { realm_id: u128, prefix: Ipv4Prefix, gateway: u32 },
    EndpointAttachment { endpoint_id: u128, mac: Seq<char>, fixed_ip: u32, generation: u64 },
    AddressAssignment { endpoint_id: u128, address: u32, generation: u64 },
    Route(RouteIntent),
    Gateway(GatewayIntent),
    Egress(EgressIntent),
    PublicAddressBinding(PublicAddressBindingIntentView),
    Policy(PolicyIntent),
    PolicyDefault(PolicyDefaultIntent),
}

impl View for NetworkPlanIntent {
    type V = NetworkPlanIntentView;

    open spec fn view(&self) -> NetworkPlanIntentView {
        match *self {
            NetworkPlanIntent::AddressRealm { realm_id, prefix, gateway } => {
                NetworkPlanIntentView::AddressRealm { realm_id, prefix, gateway }
            },
            NetworkPlanIntent::EndpointAttachment { endpoint_id, mac, fixed_ip, generation } => {
                NetworkPlanIntentView::EndpointAttachment {
                    endpoint_id,
                    mac: mac@,
                    fixed_ip,
                    generation,
                }
            },
            NetworkPlanIntent::AddressAssignment { endpoint_id, address, generation } => {
                NetworkPlanIntentView::AddressAssignment { endpoint_id, address, generation }
            },
            NetworkPlanIntent::Route(x) => NetworkPlanIntentView::Route(x),
            NetworkPlanIntent::Gateway(x) => NetworkPlanIntentView::Gateway(x),
            NetworkPlanIntent::Egress(x) => NetworkPlanIntentView::Egress(x),
            NetworkPlanIntent::PublicAddressBinding(x) => {
                NetworkPlanIntentView::PublicAddressBinding(x@)
            },
            NetworkPlanIntent::Policy(x) => NetworkPlanIntentView::Policy(x),
            NetworkPlanIntent::PolicyDefault(x) => NetworkPlanIntentView::PolicyDefault(x),
        }
    }
}

impl Model for NetworkPlanIntent {
    fn copy(&self) -> (r: Self) {
        match self {
            NetworkPlanIntent::AddressRealm { realm_id, prefix, gateway } => {
                NetworkPlanIntent::AddressRealm {
                    realm_id: *realm_id,
                    prefix: *prefix,
                    gateway: *gateway,
                }
            },
            NetworkPlanIntent::EndpointAttachment { endpoint_id, mac, fixed_ip, generation } => {
                NetworkPlanIntent::EndpointAttachment {
                    endpoint_id: *endpoint_id,
                    mac: mac.clone(),
                    fixed_ip: *fixed_ip,
                    generation: *generation,
                }
            },
            NetworkPlanIntent::AddressAssignment { endpoint_id, address, generation } => {
                NetworkPlanIntent::AddressAssignment {
                    endpoint_id: *endpoint_id,
                    address: *address,
                    generation: *generation,
                }
            },
            NetworkPlanIntent::Route(x) => NetworkPlanIntent::Route(*x),
            NetworkPlanIntent::Gateway(x) => NetworkPlanIntent::Gateway(*x),
            NetworkPlanIntent::Egress(x) => NetworkPlanIntent::Egress(*x),
            NetworkPlanIntent::PublicAddressBinding(x) => {
                NetworkPlanIntent::PublicAddressBinding(x.copy())
            },
            NetworkPlanIntent::Policy(x) => NetworkPlanIntent::Policy(*x),
            NetworkPlanIntent::PolicyDefault(x) => NetworkPlanIntent::PolicyDefault(*x),
        }
    }

    fn same_as(&self, other: &Self) -> (r: bool) {
        match (self, other) {
            (
                NetworkPlanIntent::AddressRealm { realm_id: a, prefix: b, gateway: c },
                NetworkPlanIntent::AddressRealm { realm_id: x, prefix: y, gateway: z },
            ) => *a == *x && *b == *y && *c == *z,
            (
                NetworkPlanIntent::EndpointAttachment {
                    endpoint_id: a,
                    mac: b,
                    fixed_ip: c,
                    generation: d,
                },
                NetworkPlanIntent::EndpointAttachment {
                    endpoint_id: x,
                    mac: y,
                    fixed_ip: z,
                    generation: w,
                },
            ) => *a == *x && same(b.as_str(), y.as_str()) && *c == *z && *d == *w,
            (
                NetworkPlanIntent::AddressAssignment { endpoint_id: a, address: b, generation: c },
                NetworkPlanIntent::AddressAssignment { endpoint_id: x, address: y, generation: z },
            ) => *a == *x && *b == *y && *c == *z,
            (NetworkPlanIntent::Route(x), NetworkPlanIntent::Route(y)) => *x == *y,
            (NetworkPlanIntent::Gateway(x), NetworkPlanIntent::Gateway(y)) => *x == *y,
            (NetworkPlanIntent::Egress(x), NetworkPlanIntent::Egress(y)) => *x == *y,
            (
                NetworkPlanIntent::PublicAddressBinding(x),
                NetworkPlanIntent::PublicAddressBinding(y),
            ) => x.same_as(y),
            (NetworkPlanIntent::Policy(x), NetworkPlanIntent::Policy(y)) => *x == *y,
            (NetworkPlanIntent::PolicyDefault(x), NetworkPlanIntent::PolicyDefault(y)) => *x == *y,
            _ => false,
        }
    }
}

/// The generation of one resource of a plan.
#[derive(Clone, Copy, Debug, PartialEq, Eq, Structural)]
pub struct ResourceGeneration {
    pub id: u128,
    pub generation: u64,
}

impl View for ResourceGeneration {
    type V = ResourceGeneration;

    open spec fn view(&self) -> ResourceGeneration {
        *self
    }
}

impl Model for ResourceGeneration {
    fn copy(&self) -> (r: Self) {
        *self
    }

    fn same_as(&self, other: &Self) -> (r: bool) {
        *self == *other
    }
}

impl ById for ResourceGeneration {
    open spec fn id_of(v: ResourceGeneration) -> u128 {
        v.id
    }

    fn id(&self) -> (r: u128) {
        self.id
    }
}

/// A realm that a gateway connects, by the relation that attaches it.
#[derive(Clone, Copy, Debug, PartialEq, Eq, Structural)]
pub struct GatewayAttachment {
    pub attachment_id: u128,
    pub realm_id: u128,
    pub generation: u64,
}

impl View for GatewayAttachment {
    type V = GatewayAttachment;

    open spec fn view(&self) -> GatewayAttachment {
        *self
    }
}

impl Model for GatewayAttachment {
    fn copy(&self) -> (r: Self) {
        *self
    }

    fn same_as(&self, other: &Self) -> (r: bool) {
        *self == *other
    }
}

/// The execution unit of a gateway between realms: its identity, its generation, the realms that
/// it connects, and the canonical encoding of the whole unit.
#[derive(Clone, Debug, PartialEq, Eq)]
pub struct L3GatewayExecutionPlan {
    pub gateway_id: u128,
    pub gateway_generation: u64,
    pub attachments: Vec<GatewayAttachment>,
    pub encoded: String,
}

/// The view of [`L3GatewayExecutionPlan`].
#[verifier::ext_equal]
pub struct L3GatewayExecutionPlanView {
    pub gateway_id: u128,
    pub gateway_generation: u64,
    pub attachments: Seq<GatewayAttachment>,
    pub encoded: Seq<char>,
}

impl View for L3GatewayExecutionPlan {
    type V = L3GatewayExecutionPlanView;

    open spec fn view(&self) -> L3GatewayExecutionPlanView {
        L3GatewayExecutionPlanView {
            gateway_id: self.gateway_id,
            gateway_generation: self.gateway_generation,
            attachments: views(self.attachments@),
            encoded: self.encoded@,
        }
    }
}

impl Model for L3GatewayExecutionPlan {
    fn copy(&self) -> (r: Self) {
        L3GatewayExecutionPlan {
            gateway_id: self.gateway_id,
            gateway_generation: self.gateway_generation,
            attachments: copy_list(&self.attachments),
            encoded: self.encoded.clone(),
        }
    }

    fn same_as(&self, other: &Self) -> (r: bool) {
        self.gateway_id == other.gateway_id
            && self.gateway_generation == other.gateway_generation
            && same_list(&self.attachments, &other.attachments)
            && same(self.encoded.as_str(), other.encoded.as_str())
    }
}

/// A deterministic, provider-independent compilation of canonical network intent. It holds
/// semantic intents only; host commands and provider handles belong behind the execution
/// boundary.
#[derive(Clone, Debug, PartialEq, Eq)]
pub struct NodeNetworkPlan {
    pub schema_version: u16,
    pub plan_id: u128,
    pub node_id: String,
    pub operation_id: u128,
    pub deadline_unix_ms: u64,
    pub resource_generations: Vec<ResourceGeneration>,
    pub intents: Vec<NetworkPlanIntent>,
    /// The accepted plan of a realm, where the node has one.
    pub fabric: Option<NamespacedRoutedFabricPlan>,
    /// The execution unit of a gateway between realms, which is not part of the plan of a realm.
    pub gateway: Option<L3GatewayExecutionPlan>,
    pub fingerprint_sha256: String,
}

/// The view of [`NodeNetworkPlan`].
#[verifier::ext_equal]
pub struct NodeNetworkPlanView {
    pub schema_version: u16,
    pub plan_id: u128,
    pub node_id: Seq<char>,
    pub operation_id: u128,
    pub deadline_unix_ms: u64,
    pub resource_generations: Seq<ResourceGeneration>,
    pub intents: Seq<NetworkPlanIntentView>,
    pub fabric: Option<NamespacedRoutedFabricPlanView>,
    pub gateway: Option<L3GatewayExecutionPlanView>,
    pub fingerprint_sha256: Seq<char>,
}

impl View for NodeNetworkPlan {
    type V = NodeNetworkPlanView;

    open spec fn view(&self) -> NodeNetworkPlanView {
        NodeNetworkPlanView {
            schema_version: self.schema_version,
            plan_id: self.plan_id,
            node_id: self.node_id@,
            operation_id: self.operation_id,
            deadline_unix_ms: self.deadline_unix_ms,
            resource_generations: views(self.resource_generations@),
            intents: views(self.intents@),
            fabric: view_opt(self.fabric),
            gateway: view_opt(self.gateway),
            fingerprint_sha256: self.fingerprint_sha256@,
        }
    }
}

impl Model for NodeNetworkPlan {
    fn copy(&self) -> (r: Self) {
        NodeNetworkPlan {
            schema_version: self.schema_version,
            plan_id: self.plan_id,
            node_id: self.node_id.clone(),
            operation_id: self.operation_id,
            deadline_unix_ms: self.deadline_unix_ms,
            resource_generations: copy_list(&self.resource_generations),
            intents: copy_list(&self.intents),
            fabric: copy_opt(&self.fabric),
            gateway: copy_opt(&self.gateway),
            fingerprint_sha256: self.fingerprint_sha256.clone(),
        }
    }

    fn same_as(&self, other: &Self) -> (r: bool) {
        self.schema_version == other.schema_version
            && self.plan_id == other.plan_id
            && same(self.node_id.as_str(), other.node_id.as_str())
            && self.operation_id == other.operation_id
            && self.deadline_unix_ms == other.deadline_unix_ms
            && same_list(&self.resource_generations, &other.resource_generations)
            && same_list(&self.intents, &other.intents)
            && same_opt(&self.fabric, &other.fabric)
            && same_opt(&self.gateway, &other.gateway)
            && same(self.fingerprint_sha256.as_str(), other.fingerprint_sha256.as_str())
    }
}

/// A way in which a plan is rejected.
#[derive(Clone, Copy, Debug, PartialEq, Eq, Structural)]
pub enum NetworkPlanError {
    OverlappingRealm,
    AddressOutsideRealm,
    UnsupportedCapability(NetworkCapability),
    ConflictingEndpoint,
    Serialization,
    ConflictingPlan,
    OwnershipViolation,
    InvalidAddressPool,
    InvalidPolicy,
    InvalidPrefix,
    InvalidFabricPlan,
    InvalidGatewayPlan,
}

/// What compiling a plan comes to, by its view.
pub open spec fn plan_view(r: Result<NodeNetworkPlan, NetworkPlanError>) -> Result<
    NodeNetworkPlanView,
    NetworkPlanError,
> {
    match r {
        Ok(plan) => Ok(plan@),
        Err(e) => Err(e),
    }
}

} // verus!
