//! The record of what was made on the host for the fabric.
use crate::model::{copy_list, copy_opt, copy_plain, same_list, same_opt, same_u32s, view_opt, views, Model};
use crate::table::{id_sorted, name_sorted, ById, ByName};
use crate::text::same;
use vstd::prelude::*;

verus! {

/// The version of the record.
pub const STATE_VERSION: u32 = 2;

/// The tap device of a local endpoint.
#[derive(Clone, Debug, PartialEq, Eq)]
pub struct EndpointTapOwnership {
    pub endpoint_id: u128,
    pub interface: String,
    pub mac: String,
}

/// The view of [`EndpointTapOwnership`].
#[verifier::ext_equal]
pub struct EndpointTapOwnershipView {
    pub endpoint_id: u128,
    pub interface: Seq<char>,
    pub mac: Seq<char>,
}

impl View for EndpointTapOwnership {
    type V = EndpointTapOwnershipView;

    open spec fn view(&self) -> EndpointTapOwnershipView {
        EndpointTapOwnershipView {
            endpoint_id: self.endpoint_id,
            interface: self.interface@,
            mac: self.mac@,
        }
    }
}

impl Model for EndpointTapOwnership {
    fn copy(&self) -> (r: Self) {
        EndpointTapOwnership {
            endpoint_id: self.endpoint_id,
            interface: self.interface.clone(),
            mac: self.mac.clone(),
        }
    }

    fn same_as(&self, other: &Self) -> (r: bool) {
        self.endpoint_id == other.endpoint_id
            && same(self.interface.as_str(), other.interface.as_str())
            && same(self.mac.as_str(), other.mac.as_str())
    }
}

impl ById for EndpointTapOwnership {
    open spec fn id_of(v: EndpointTapOwnershipView) -> u128 {
        v.endpoint_id
    }

    fn id(&self) -> (r: u128) {
        self.endpoint_id
    }
}

/// The tunnel of a realm to another host and what connects it to the realm.
#[derive(Clone, Debug, PartialEq, Eq)]
pub struct GeneveOwnership {
    pub target_host: String,
    pub interface: String,
    pub remote_transport_ip: u32,
    pub vni: u32,
    pub binding_generation: u64,
    pub local_tunnel_mac: String,
    pub remote_tunnel_mac: String,
    pub bridge: String,
    pub realm_veth: String,
    pub fabric_veth: String,
    pub realized: bool,
}

/// The view of [`GeneveOwnership`].
#[verifier::ext_equal]
pub struct GeneveOwnershipView {
    pub target_host: Seq<char>,
    pub interface: Seq<char>,
    pub remote_transport_ip: u32,
    pub vni: u32,
    pub binding_generation: u64,
    pub local_tunnel_mac: Seq<char>,
    pub remote_tunnel_mac: Seq<char>,
    pub bridge: Seq<char>,
    pub realm_veth: Seq<char>,
    pub fabric_veth: Seq<char>,
    pub realized: bool,
}

impl View for GeneveOwnership {
    type V = GeneveOwnershipView;

    open spec fn view(&self) -> GeneveOwnershipView {
        GeneveOwnershipView {
            target_host: self.target_host@,
            interface: self.interface@,
            remote_transport_ip: self.remote_transport_ip,
            vni: self.vni,
            binding_generation: self.binding_generation,
            local_tunnel_mac: self.local_tunnel_mac@,
            remote_tunnel_mac: self.remote_tunnel_mac@,
            bridge: self.bridge@,
            realm_veth: self.realm_veth@,
            fabric_veth: self.fabric_veth@,
            realized: self.realized,
        }
    }
}

impl Model for GeneveOwnership {
    fn copy(&self) -> (r: Self) {
        GeneveOwnership {
            target_host: self.target_host.clone(),
            interface: self.interface.clone(),
            remote_transport_ip: self.remote_transport_ip,
            vni: self.vni,
            binding_generation: self.binding_generation,
            local_tunnel_mac: self.local_tunnel_mac.clone(),
            remote_tunnel_mac: self.remote_tunnel_mac.clone(),
            bridge: self.bridge.clone(),
            realm_veth: self.realm_veth.clone(),
            fabric_veth: self.fabric_veth.clone(),
            realized: self.realized,
        }
    }

    fn same_as(&self, other: &Self) -> (r: bool) {
        same(self.target_host.as_str(), other.target_host.as_str())
            && same(self.interface.as_str(), other.interface.as_str())
            && self.remote_transport_ip == other.remote_transport_ip
            && self.vni == other.vni
            && self.binding_generation == other.binding_generation
            && same(self.local_tunnel_mac.as_str(), other.local_tunnel_mac.as_str())
            && same(self.remote_tunnel_mac.as_str(), other.remote_tunnel_mac.as_str())
            && same(self.bridge.as_str(), other.bridge.as_str())
            && same(self.realm_veth.as_str(), other.realm_veth.as_str())
            && same(self.fabric_veth.as_str(), other.fabric_veth.as_str())
            && self.realized == other.realized
    }
}

impl ByName for GeneveOwnership {
    open spec fn name_of(v: GeneveOwnershipView) -> Seq<char> {
        v.target_host
    }

    fn name(&self) -> (r: &str) {
        self.target_host.as_str()
    }
}

/// One isolated attachment exists for every remote host, so that the shared fabric namespace
/// never needs a table of tenant routes.
#[derive(Clone, Debug, PartialEq, Eq)]
pub struct FabricAttachmentOwnership {
    pub target_host: String,
    pub bridge: String,
    pub realm_veth: String,
    pub fabric_veth: String,
    pub local_tunnel_mac: String,
    pub remote_tunnel_mac: String,
}

/// The view of [`FabricAttachmentOwnership`].
#[verifier::ext_equal]
pub struct FabricAttachmentOwnershipView {
    pub target_host: Seq<char>,
    pub bridge: Seq<char>,
    pub realm_veth: Seq<char>,
    pub fabric_veth: Seq<char>,
    pub local_tunnel_mac: Seq<char>,
    pub remote_tunnel_mac: Seq<char>,
}

impl View for FabricAttachmentOwnership {
    type V = FabricAttachmentOwnershipView;

    open spec fn view(&self) -> FabricAttachmentOwnershipView {
        FabricAttachmentOwnershipView {
            target_host: self.target_host@,
            bridge: self.bridge@,
            realm_veth: self.realm_veth@,
            fabric_veth: self.fabric_veth@,
            local_tunnel_mac: self.local_tunnel_mac@,
            remote_tunnel_mac: self.remote_tunnel_mac@,
        }
    }
}

impl Model for FabricAttachmentOwnership {
    fn copy(&self) -> (r: Self) {
        FabricAttachmentOwnership {
            target_host: self.target_host.clone(),
            bridge: self.bridge.clone(),
            realm_veth: self.realm_veth.clone(),
            fabric_veth: self.fabric_veth.clone(),
            local_tunnel_mac: self.local_tunnel_mac.clone(),
            remote_tunnel_mac: self.remote_tunnel_mac.clone(),
        }
    }

    fn same_as(&self, other: &Self) -> (r: bool) {
        same(self.target_host.as_str(), other.target_host.as_str())
            && same(self.bridge.as_str(), other.bridge.as_str())
            && same(self.realm_veth.as_str(), other.realm_veth.as_str())
            && same(self.fabric_veth.as_str(), other.fabric_veth.as_str())
            && same(self.local_tunnel_mac.as_str(), other.local_tunnel_mac.as_str())
            && same(self.remote_tunnel_mac.as_str(), other.remote_tunnel_mac.as_str())
    }
}

impl ByName for FabricAttachmentOwnership {
    open spec fn name_of(v: FabricAttachmentOwnershipView) -> Seq<char> {
        v.target_host
    }

    fn name(&self) -> (r: &str) {
        self.target_host.as_str()
    }
}

/// What was made for a realm.
#[derive(Clone, Debug, PartialEq, Eq)]
pub struct RealmOwnership {
    pub realm_id: u128,
    pub namespace: String,
    pub bridge: String,
    pub host_veth: String,
    pub realm_veth: String,
    pub fabric_veth: String,
    pub fabric_realm_veth: String,
    pub public_host_veth: String,
    pub public_realm_veth: String,
    pub geneve: Vec<GeneveOwnership>,
    pub attachments: Vec<FabricAttachmentOwnership>,
    pub endpoint_taps: Vec<EndpointTapOwnership>,
    pub pending_endpoint_taps: Vec<EndpointTapOwnership>,
    pub policy_generation: u64,
    pub policy_fingerprint: String,
    pub public_generation: u64,
    pub public_fingerprint: String,
    pub public_mark: u32,
    pub public_route_table: u32,
    pub public_addresses: Vec<u32>,
    pub directory_generation: u64,
    pub local_fabric_generation: u64,
}

/// The view of [`RealmOwnership`].
#[verifier::ext_equal]
pub struct RealmOwnershipView {
    pub realm_id: u128,
    pub namespace: Seq<char>,
    pub bridge: Seq<char>,
    pub host_veth: Seq<char>,
    pub realm_veth: Seq<char>,
    pub fabric_veth: Seq<char>,
    pub fabric_realm_veth: Seq<char>,
    pub public_host_veth: Seq<char>,
    pub public_realm_veth: Seq<char>,
    pub geneve: Seq<GeneveOwnershipView>,
    pub attachments: Seq<FabricAttachmentOwnershipView>,
    pub endpoint_taps: Seq<EndpointTapOwnershipView>,
    pub pending_endpoint_taps: Seq<EndpointTapOwnershipView>,
    pub policy_generation: u64,
    pub policy_fingerprint: Seq<char>,
    pub public_generation: u64,
    pub public_fingerprint: Seq<char>,
    pub public_mark: u32,
    pub public_route_table: u32,
    pub public_addresses: Seq<u32>,
    pub directory_generation: u64,
    pub local_fabric_generation: u64,
}

impl View for RealmOwnership {
    type V = RealmOwnershipView;

    open spec fn view(&self) -> RealmOwnershipView {
        RealmOwnershipView {
            realm_id: self.realm_id,
            namespace: self.namespace@,
            bridge: self.bridge@,
            host_veth: self.host_veth@,
            realm_veth: self.realm_veth@,
            fabric_veth: self.fabric_veth@,
            fabric_realm_veth: self.fabric_realm_veth@,
            public_host_veth: self.public_host_veth@,
            public_realm_veth: self.public_realm_veth@,
            geneve: views(self.geneve@),
            attachments: views(self.attachments@),
            endpoint_taps: views(self.endpoint_taps@),
            pending_endpoint_taps: views(self.pending_endpoint_taps@),
            policy_generation: self.policy_generation,
            policy_fingerprint: self.policy_fingerprint@,
            public_generation: self.public_generation,
            public_fingerprint: self.public_fingerprint@,
            public_mark: self.public_mark,
            public_route_table: self.public_route_table,
            public_addresses: self.public_addresses@,
            directory_generation: self.directory_generation,
            local_fabric_generation: self.local_fabric_generation,
        }
    }
}

impl Model for RealmOwnership {
    fn copy(&self) -> (r: Self) {
        RealmOwnership {
            realm_id: self.realm_id,
            namespace: self.namespace.clone(),
            bridge: self.bridge.clone(),
            host_veth: self.host_veth.clone(),
            realm_veth: self.realm_veth.clone(),
            fabric_veth: self.fabric_veth.clone(),
            fabric_realm_veth: self.fabric_realm_veth.clone(),
            public_host_veth: self.public_host_veth.clone(),
            public_realm_veth: self.public_realm_veth.clone(),
            geneve: copy_list(&self.geneve),
            attachments: copy_list(&self.attachments),
            endpoint_taps: copy_list(&self.endpoint_taps),
            pending_endpoint_taps: copy_list(&self.pending_endpoint_taps),
            policy_generation: self.policy_generation,
            policy_fingerprint: self.policy_fingerprint.clone(),
            public_generation: self.public_generation,
            public_fingerprint: self.public_fingerprint.clone(),
            public_mark: self.public_mark,
            public_route_table: self.public_route_table,
            public_addresses: copy_plain(&self.public_addresses),
            directory_generation: self.directory_generation,
            local_fabric_generation: self.local_fabric_generation,
        }
    }

    fn same_as(&self, other: &Self) -> (r: bool) {
        self.realm_id == other.realm_id
            && same(self.namespace.as_str(), other.namespace.as_str())
            && same(self.bridge.as_str(), other.bridge.as_str())
            && same(self.host_veth.as_str(), other.host_veth.as_str())
            && same(self.realm_veth.as_str(), other.realm_veth.as_str())
            && same(self.fabric_veth.as_str(), other.fabric_veth.as_str())
            && same(self.fabric_realm_veth.as_str(), other.fabric_realm_veth.as_str())
            && same(self.public_host_veth.as_str(), other.public_host_veth.as_str())
            && same(self.public_realm_veth.as_str(), other.public_realm_veth.as_str())
            && same_list(&self.geneve, &other.geneve)
            && same_list(&self.attachments, &other.attachments)
            && same_list(&self.endpoint_taps, &other.endpoint_taps)
            && same_list(&self.pending_endpoint_taps, &other.pending_endpoint_taps)
            && self.policy_generation == other.policy_generation
            && same(self.policy_fingerprint.as_str(), other.policy_fingerprint.as_str())
            && self.public_generation == other.public_generation
            && same(self.public_fingerprint.as_str(), other.public_fingerprint.as_str())
            && self.public_mark == other.public_mark
            && self.public_route_table == other.public_route_table
            && same_u32s(&self.public_addresses, &other.public_addresses)
            && self.directory_generation == other.directory_generation
            && self.local_fabric_generation == other.local_fabric_generation
    }
}

impl ById for RealmOwnership {
    open spec fn id_of(v: RealmOwnershipView) -> u128 {
        v.realm_id
    }

    fn id(&self) -> (r: u128) {
        self.realm_id
    }
}

/// What was made for the fabric itself.
#[derive(Clone, Debug, PartialEq, Eq)]
pub struct FabricOwnership {
    pub namespace: String,
    pub interface: String,
    pub private_key_path: String,
    pub fabric_transport_ip: u32,
    pub fabric_generation: u64,
    pub managed_peers: Vec<String>,
}

/// The view of [`FabricOwnership`].
#[verifier::ext_equal]
pub struct FabricOwnershipView {
    pub namespace: Seq<char>,
    pub interface: Seq<char>,
    pub private_key_path: Seq<char>,
    pub fabric_transport_ip: u32,
    pub fabric_generation: u64,
    pub managed_peers: Seq<Seq<char>>,
}

impl View for FabricOwnership {
    type V = FabricOwnershipView;

    open spec fn view(&self) -> FabricOwnershipView {
        FabricOwnershipView {
            namespace: self.namespace@,
            interface: self.interface@,
            private_key_path: self.private_key_path@,
            fabric_transport_ip: self.fabric_transport_ip,
            fabric_generation: self.fabric_generation,
            managed_peers: views(self.managed_peers@),
        }
    }
}

impl Model for FabricOwnership {
    fn copy(&self) -> (r: Self) {
        FabricOwnership {
            namespace: self.namespace.clone(),
            interface: self.interface.clone(),
            private_key_path: self.private_key_path.clone(),
            fabric_transport_ip: self.fabric_transport_ip,
            fabric_generation: self.fabric_generation,
            managed_peers: copy_list(&self.managed_peers),
        }
    }

    fn same_as(&self, other: &Self) -> (r: bool) {
        same(self.namespace.as_str(), other.namespace.as_str())
            && same(self.interface.as_str(), other.interface.as_str())
            && same(self.private_key_path.as_str(), other.private_key_path.as_str())
            && self.fabric_transport_ip == other.fabric_transport_ip
            && self.fabric_generation == other.fabric_generation
            && same_list(&self.managed_peers, &other.managed_peers)
    }
}

/// The whole record.
#[derive(Clone, Debug, PartialEq, Eq)]
pub struct ProviderState {
    pub version: u32,
    pub fabric: Option<FabricOwnership>,
    pub realms: Vec<RealmOwnership>,
}

/// The view of [`ProviderState`].
#[verifier::ext_equal]
pub struct ProviderStateView {
    pub version: u32,
    pub fabric: Option<FabricOwnershipView>,
    pub realms: Seq<RealmOwnershipView>,
}

impl View for ProviderState {
    type V = ProviderStateView;

    open spec fn view(&self) -> ProviderStateView {
        ProviderStateView {
            version: self.version,
            fabric: view_opt(self.fabric),
            realms: views(self.realms@),
        }
    }
}

impl Model for ProviderState {
    fn copy(&self) -> (r: Self) {
        ProviderState {
            version: self.version,
            fabric: copy_opt(&self.fabric),
            realms: copy_list(&self.realms),
        }
    }

    fn same_as(&self, other: &Self) -> (r: bool) {
        self.version == other.version
            && same_opt(&self.fabric, &other.fabric)
            && same_list(&self.realms, &other.realms)
    }
}


impl Default for ProviderState {
    fn default() -> (r: Self)
        ensures
            r@ == (ProviderStateView {
                version: STATE_VERSION,
                fabric: None,
                realms: Seq::empty(),
            }),
    {
        let r = ProviderState { version: STATE_VERSION, fabric: None, realms: Vec::new() };
        assert(r@.realms =~= Seq::<RealmOwnershipView>::empty());
        r
    }
}

impl ProviderStateView {
    /// The record of a realm.
    pub open spec fn realm(self, id: u128) -> Option<RealmOwnershipView> {
        crate::table::id_get::<RealmOwnership>(self.realms, id)
    }

    /// The record with that of one realm put in its place.
    pub open spec fn with_realm(self, realm: RealmOwnershipView) -> ProviderStateView {
        ProviderStateView {
            realms: crate::table::id_put::<RealmOwnership>(self.realms, realm),
            ..self
        }
    }

    /// The record without that of one realm.
    pub open spec fn without_realm(self, id: u128) -> ProviderStateView {
        ProviderStateView { realms: crate::table::id_cut::<RealmOwnership>(self.realms, id), ..self }
    }

    /// The tables of the record are in the order of their keys.
    pub open spec fn sorted(self) -> bool {
        &&& id_sorted::<RealmOwnership>(self.realms)
        &&& forall|i: int| 0 <= i < self.realms.len() ==> (#[trigger] self.realms[i]).sorted()
    }
}

impl RealmOwnershipView {
    /// The tables of the realm's record are in the order of their keys.
    pub open spec fn sorted(self) -> bool {
        &&& name_sorted::<GeneveOwnership>(self.geneve)
        &&& name_sorted::<FabricAttachmentOwnership>(self.attachments)
        &&& id_sorted::<EndpointTapOwnership>(self.endpoint_taps)
        &&& id_sorted::<EndpointTapOwnership>(self.pending_endpoint_taps)
    }
}

} // verus!
