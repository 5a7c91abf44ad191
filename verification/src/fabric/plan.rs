//! The plan of one realm on one host, and its parts.
use crate::domain::{
    PolicyDefaultIntent, PolicyIntent, PublicAddressBindingIntent, PublicAddressBindingIntentView,
};
use crate::ipv4::Ipv4Prefix;
use crate::model::{copy_list, same_list, views, Model};
use crate::table::{ById, ByName};
use crate::text::same;
use vstd::prelude::*;

verus! {

/// How the traffic of a realm is carried between hosts.
#[derive(Clone, Copy, Debug, PartialEq, Eq, Structural)]
pub enum FabricProviderKind {
    Geneve,
}

/// The segment of a fabric domain that carries a realm.
#[derive(Clone, Copy, Debug, PartialEq, Eq, Structural)]
pub struct RealmEncapsulationBinding {
    pub fabric_domain_id: u128,
    pub realm_id: u128,
    pub provider_kind: FabricProviderKind,
    pub provider_segment_id: u32,
    pub binding_generation: u64,
}

impl View for RealmEncapsulationBinding {
    type V = RealmEncapsulationBinding;

    open spec fn view(&self) -> RealmEncapsulationBinding {
        *self
    }
}

impl Model for RealmEncapsulationBinding {
    fn copy(&self) -> (r: Self) {
        *self
    }

    fn same_as(&self, other: &Self) -> (r: bool) {
        *self == *other
    }
}

/// Another host of the fabric.
#[derive(Clone, Debug, PartialEq, Eq)]
pub struct FabricPeer {
    pub host_id: String,
    pub public_key: String,
    pub underlay_endpoint: String,
    pub fabric_transport_ip: u32,
    pub fabric_generation: u64,
}

/// The view of [`FabricPeer`].
#[verifier::ext_equal]
pub struct FabricPeerView {
    pub host_id: Seq<char>,
    pub public_key: Seq<char>,
    pub underlay_endpoint: Seq<char>,
    pub fabric_transport_ip: u32,
    pub fabric_generation: u64,
}

impl View for FabricPeer {
    type V = FabricPeerView;

    open spec fn view(&self) -> FabricPeerView {
        FabricPeerView {
            host_id: self.host_id@,
            public_key: self.public_key@,
            underlay_endpoint: self.underlay_endpoint@,
            fabric_transport_ip: self.fabric_transport_ip,
            fabric_generation: self.fabric_generation,
        }
    }
}

impl Model for FabricPeer {
    fn copy(&self) -> (r: Self) {
        FabricPeer {
            host_id: self.host_id.clone(),
            public_key: self.public_key.clone(),
            underlay_endpoint: self.underlay_endpoint.clone(),
            fabric_transport_ip: self.fabric_transport_ip,
            fabric_generation: self.fabric_generation,
        }
    }

    fn same_as(&self, other: &Self) -> (r: bool) {
        same(self.host_id.as_str(), other.host_id.as_str())
            && same(self.public_key.as_str(), other.public_key.as_str())
            && same(self.underlay_endpoint.as_str(), other.underlay_endpoint.as_str())
            && self.fabric_transport_ip == other.fabric_transport_ip
            && self.fabric_generation == other.fabric_generation
    }
}

impl ByName for FabricPeer {
    open spec fn name_of(v: FabricPeerView) -> Seq<char> {
        v.host_id
    }

    fn name(&self) -> (r: &str) {
        self.host_id.as_str()
    }
}

/// The way to an endpoint on another host.
#[derive(Clone, Debug, PartialEq, Eq)]
pub struct FabricEndpointRoute {
    pub realm_id: u128,
    pub destination: Ipv4Prefix,
    pub endpoint_id: u128,
    pub target_host: String,
    pub target_fabric_transport_ip: u32,
    pub endpoint_generation: u64,
    pub placement_generation: u64,
    pub realm_binding_generation: u64,
    pub fabric_generation: u64,
}

/// The view of [`FabricEndpointRoute`].
#[verifier::ext_equal]
pub struct FabricEndpointRouteView {
    pub realm_id: u128,
    pub destination: Ipv4Prefix,
    pub endpoint_id: u128,
    pub target_host: Seq<char>,
    pub target_fabric_transport_ip: u32,
    pub endpoint_generation: u64,
    pub placement_generation: u64,
    pub realm_binding_generation: u64,
    pub fabric_generation: u64,
}

impl View for FabricEndpointRoute {
    type V = FabricEndpointRouteView;

    open spec fn view(&self) -> FabricEndpointRouteView {
        FabricEndpointRouteView {
            realm_id: self.realm_id,
            destination: self.destination,
            endpoint_id: self.endpoint_id,
            target_host: self.target_host@,
            target_fabric_transport_ip: self.target_fabric_transport_ip,
            endpoint_generation: self.endpoint_generation,
            placement_generation: self.placement_generation,
            realm_binding_generation: self.realm_binding_generation,
            fabric_generation: self.fabric_generation,
        }
    }
}

impl Model for FabricEndpointRoute {
    fn copy(&self) -> (r: Self) {
        FabricEndpointRoute {
            realm_id: self.realm_id,
            destination: self.destination,
            endpoint_id: self.endpoint_id,
            target_host: self.target_host.clone(),
            target_fabric_transport_ip: self.target_fabric_transport_ip,
            endpoint_generation: self.endpoint_generation,
            placement_generation: self.placement_generation,
            realm_binding_generation: self.realm_binding_generation,
            fabric_generation: self.fabric_generation,
        }
    }

    fn same_as(&self, other: &Self) -> (r: bool) {
        self.realm_id == other.realm_id
            && self.destination == other.destination
            && self.endpoint_id == other.endpoint_id
            && same(self.target_host.as_str(), other.target_host.as_str())
            && self.target_fabric_transport_ip == other.target_fabric_transport_ip
            && self.endpoint_generation == other.endpoint_generation
            && self.placement_generation == other.placement_generation
            && self.realm_binding_generation == other.realm_binding_generation
            && self.fabric_generation == other.fabric_generation
    }
}

/// Where an endpoint of a realm is.
#[derive(Clone, Debug, PartialEq, Eq)]
pub struct EndpointLocation {
    pub endpoint_id: u128,
    pub project_id: String,
    pub realm_id: u128,
    pub fixed_ip: u32,
    pub mac: String,
    pub selected_host: String,
    pub endpoint_generation: u64,
    pub placement_generation: u64,
}

/// The view of [`EndpointLocation`].
#[verifier::ext_equal]
pub struct EndpointLocationView {
    pub endpoint_id: u128,
    pub project_id: Seq<char>,
    pub realm_id: u128,
    pub fixed_ip: u32,
    pub mac: Seq<char>,
    pub selected_host: Seq<char>,
    pub endpoint_generation: u64,
    pub placement_generation: u64,
}

impl View for EndpointLocation {
    type V = EndpointLocationView;

    open spec fn view(&self) -> EndpointLocationView {
        EndpointLocationView {
            endpoint_id: self.endpoint_id,
            project_id: self.project_id@,
            realm_id: self.realm_id,
            fixed_ip: self.fixed_ip,
            mac: self.mac@,
            selected_host: self.selected_host@,
            endpoint_generation: self.endpoint_generation,
            placement_generation: self.placement_generation,
        }
    }
}

impl Model for EndpointLocation {
    fn copy(&self) -> (r: Self) {
        EndpointLocation {
            endpoint_id: self.endpoint_id,
            project_id: self.project_id.clone(),
            realm_id: self.realm_id,
            fixed_ip: self.fixed_ip,
            mac: self.mac.clone(),
            selected_host: self.selected_host.clone(),
            endpoint_generation: self.endpoint_generation,
            placement_generation: self.placement_generation,
        }
    }

    fn same_as(&self, other: &Self) -> (r: bool) {
        self.endpoint_id == other.endpoint_id
            && same(self.project_id.as_str(), other.project_id.as_str())
            && self.realm_id == other.realm_id
            && self.fixed_ip == other.fixed_ip
            && same(self.mac.as_str(), other.mac.as_str())
            && same(self.selected_host.as_str(), other.selected_host.as_str())
            && self.endpoint_generation == other.endpoint_generation
            && self.placement_generation == other.placement_generation
    }
}

/// The endpoints of a realm.
#[derive(Clone, Debug, PartialEq, Eq)]
pub struct RealmEndpointDirectory {
    pub realm_id: u128,
    pub prefix: Ipv4Prefix,
    pub directory_generation: u64,
    pub proxy_mac: String,
    pub entries: Vec<EndpointLocation>,
}

/// The view of [`RealmEndpointDirectory`].
#[verifier::ext_equal]
pub struct RealmEndpointDirectoryView {
    pub realm_id: u128,
    pub prefix: Ipv4Prefix,
    pub directory_generation: u64,
    pub proxy_mac: Seq<char>,
    pub entries: Seq<EndpointLocationView>,
}

impl View for RealmEndpointDirectory {
    type V = RealmEndpointDirectoryView;

    open spec fn view(&self) -> RealmEndpointDirectoryView {
        RealmEndpointDirectoryView {
            realm_id: self.realm_id,
            prefix: self.prefix,
            directory_generation: self.directory_generation,
            proxy_mac: self.proxy_mac@,
            entries: views(self.entries@),
        }
    }
}

impl Model for RealmEndpointDirectory {
    fn copy(&self) -> (r: Self) {
        RealmEndpointDirectory {
            realm_id: self.realm_id,
            prefix: self.prefix,
            directory_generation: self.directory_generation,
            proxy_mac: self.proxy_mac.clone(),
            entries: copy_list(&self.entries),
        }
    }

    fn same_as(&self, other: &Self) -> (r: bool) {
        self.realm_id == other.realm_id
            && self.prefix == other.prefix
            && self.directory_generation == other.directory_generation
            && same(self.proxy_mac.as_str(), other.proxy_mac.as_str())
            && same_list(&self.entries, &other.entries)
    }
}

/// What one host has to realize for one realm.
#[derive(Clone, Debug, PartialEq, Eq)]
pub struct NamespacedRoutedFabricPlan {
    pub local_host: String,
    pub local_fabric_transport_ip: u32,
    pub local_fabric_generation: u64,
    pub local_underlay_mtu: u32,
    pub local_fabric_mtu: u32,
    pub realm_id: u128,
    pub realm_prefix: Ipv4Prefix,
    pub encapsulation: RealmEncapsulationBinding,
    pub directory_generation: u64,
    pub directory: RealmEndpointDirectory,
    pub proxy_mac: String,
    pub tenant_mtu: u32,
    pub policy_generation: u64,
    pub policies: Vec<PolicyIntent>,
    pub policy_defaults: Vec<PolicyDefaultIntent>,
    pub public_bindings: Vec<PublicAddressBindingIntent>,
    pub routes: Vec<FabricEndpointRoute>,
    pub peers: Vec<FabricPeer>,
}

/// The view of [`NamespacedRoutedFabricPlan`].
#[verifier::ext_equal]
pub struct NamespacedRoutedFabricPlanView {
    pub local_host: Seq<char>,
    pub local_fabric_transport_ip: u32,
    pub local_fabric_generation: u64,
    pub local_underlay_mtu: u32,
    pub local_fabric_mtu: u32,
    pub realm_id: u128,
    pub realm_prefix: Ipv4Prefix,
    pub encapsulation: RealmEncapsulationBinding,
    pub directory_generation: u64,
    pub directory: RealmEndpointDirectoryView,
    pub proxy_mac: Seq<char>,
    pub tenant_mtu: u32,
    pub policy_generation: u64,
    pub policies: Seq<PolicyIntent>,
    pub policy_defaults: Seq<PolicyDefaultIntent>,
    pub public_bindings: Seq<PublicAddressBindingIntentView>,
    pub routes: Seq<FabricEndpointRouteView>,
    pub peers: Seq<FabricPeerView>,
}

impl View for NamespacedRoutedFabricPlan {
    type V = NamespacedRoutedFabricPlanView;

    open spec fn view(&self) -> NamespacedRoutedFabricPlanView {
        NamespacedRoutedFabricPlanView {
            local_host: self.local_host@,
            local_fabric_transport_ip: self.local_fabric_transport_ip,
            local_fabric_generation: self.local_fabric_generation,
            local_underlay_mtu: self.local_underlay_mtu,
            local_fabric_mtu: self.local_fabric_mtu,
            realm_id: self.realm_id,
            realm_prefix: self.realm_prefix,
            encapsulation: self.encapsulation,
            directory_generation: self.directory_generation,
            directory: self.directory@,
            proxy_mac: self.proxy_mac@,
            tenant_mtu: self.tenant_mtu,
            policy_generation: self.policy_generation,
            policies: views(self.policies@),
            policy_defaults: views(self.policy_defaults@),
            public_bindings: views(self.public_bindings@),
            routes: views(self.routes@),
            peers: views(self.peers@),
        }
    }
}

impl Model for NamespacedRoutedFabricPlan {
    fn copy(&self) -> (r: Self) {
        NamespacedRoutedFabricPlan {
            local_host: self.local_host.clone(),
            local_fabric_transport_ip: self.local_fabric_transport_ip,
            local_fabric_generation: self.local_fabric_generation,
            local_underlay_mtu: self.local_underlay_mtu,
            local_fabric_mtu: self.local_fabric_mtu,
            realm_id: self.realm_id,
            realm_prefix: self.realm_prefix,
            encapsulation: self.encapsulation,
            directory_generation: self.directory_generation,
            directory: self.directory.copy(),
            proxy_mac: self.proxy_mac.clone(),
            tenant_mtu: self.tenant_mtu,
            policy_generation: self.policy_generation,
            policies: copy_list(&self.policies),
            policy_defaults: copy_list(&self.policy_defaults),
            public_bindings: copy_list(&self.public_bindings),
            routes: copy_list(&self.routes),
            peers: copy_list(&self.peers),
        }
    }

    fn same_as(&self, other: &Self) -> (r: bool) {
        same(self.local_host.as_str(), other.local_host.as_str())
            && self.local_fabric_transport_ip == other.local_fabric_transport_ip
            && self.local_fabric_generation == other.local_fabric_generation
            && self.local_underlay_mtu == other.local_underlay_mtu
            && self.local_fabric_mtu == other.local_fabric_mtu
            && self.realm_id == other.realm_id
            && self.realm_prefix == other.realm_prefix
            && self.encapsulation == other.encapsulation
            && self.directory_generation == other.directory_generation
            && self.directory.same_as(&other.directory)
            && same(self.proxy_mac.as_str(), other.proxy_mac.as_str())
            && self.tenant_mtu == other.tenant_mtu
            && self.policy_generation == other.policy_generation
            && same_list(&self.policies, &other.policies)
            && same_list(&self.policy_defaults, &other.policy_defaults)
            && same_list(&self.public_bindings, &other.public_bindings)
            && same_list(&self.routes, &other.routes)
            && same_list(&self.peers, &other.peers)
    }
}

impl ById for NamespacedRoutedFabricPlan {
    open spec fn id_of(v: NamespacedRoutedFabricPlanView) -> u128 {
        v.realm_id
    }

    fn id(&self) -> (r: u128) {
        self.realm_id
    }
}

/// The first entry of an endpoint in a list.
pub open spec fn locate(entries: Seq<EndpointLocationView>, id: u128) -> Option<
    EndpointLocationView,
>
    decreases entries.len(),
{
    if entries.len() == 0 {
        None
    } else if entries[0].endpoint_id == id {
        Some(entries[0])
    } else {
        locate(entries.drop_first(), id)
    }
}

impl RealmEndpointDirectory {
    /// The entry of an endpoint.
    pub fn location(&self, endpoint_id: u128) -> (r: Option<&EndpointLocation>)
        ensures
            match r {
                Some(entry) => locate(self@.entries, endpoint_id) == Some(entry@),
                None => locate(self@.entries, endpoint_id) is None,
            },
    {
        let ghost all = self@.entries;
        assert(all.skip(0) =~= all);
        let mut i: usize = 0;
        while i < self.entries.len()
            invariant
                i <= self.entries.len(),
                all == views(self.entries@),
                locate(all, endpoint_id) == locate(all.skip(i as int), endpoint_id),
            decreases self.entries.len() - i,
        {
            assert(all.skip(i as int).drop_first() =~= all.skip(i + 1));
            assert(all.skip(i as int)[0] == self.entries@[i as int]@);
            if self.entries[i].endpoint_id == endpoint_id {
                return Some(&self.entries[i]);
            }
            i = i + 1;
        }
        None
    }
}

/// A located endpoint is an entry of the directory.
pub proof fn lemma_locate(entries: Seq<EndpointLocationView>, id: u128)
    ensures
        locate(entries, id) matches Some(e) ==> e.endpoint_id == id && entries.contains(e),
        locate(entries, id) is None <==> forall|i: int|
            0 <= i < entries.len() ==> (#[trigger] entries[i]).endpoint_id != id,
    decreases entries.len(),
{
    if entries.len() > 0 {
        let rest = entries.drop_first();
        lemma_locate(rest, id);
        if entries[0].endpoint_id != id {
            match locate(rest, id) {
                Some(e) => {
                    let k = choose|k: int| 0 <= k < rest.len() && rest[k] == e;
                    assert(entries[k + 1] == e);
                },
                None => {
                    assert forall|i: int| 0 <= i < entries.len() implies (#[trigger] entries[i]).endpoint_id
                        != id by {
                        if i > 0 {
                            assert(entries[i] == rest[i - 1]);
                        }
                    }
                },
            }
        }
    }
}

} // verus!
