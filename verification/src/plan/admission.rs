//! Admitting the plan of a realm to a node.
use super::compile::signed;
use super::fingerprint::fingerprint_of;
use super::types::{plan_view, NetworkPlanError, NodeNetworkPlan, NodeNetworkPlanView};
use crate::domain::{PolicyDefaultIntent, PolicyIntent, PolicyStatefulMode};
use crate::fabric::plan::{
    locate, EndpointLocationView, FabricEndpointRoute, FabricEndpointRouteView, FabricPeer,
    FabricPeerView, NamespacedRoutedFabricPlan, NamespacedRoutedFabricPlanView,
    RealmEncapsulationBinding,
};
use crate::fabric::public::{bindings_valid, validate_public_plan};
use crate::ipv4::{is_loopback, is_unspecified, is_unusable_transport, Ipv4Prefix};
use crate::model::views;
use crate::text::same;
use vstd::prelude::*;
use vstd::utf8::encode_utf8;

verus! {

impl RealmEncapsulationBinding {
    /// Whether the segment has a number that a tunnel can carry and a generation.
    pub open spec fn valid(self) -> bool {
        0 < self.provider_segment_id <= 0x000f_ffff && self.binding_generation != 0
    }

    /// Decides [`Self::valid`].
    pub fn is_valid(&self) -> (r: bool)
        ensures
            r == self.valid(),
    {
        self.provider_segment_id != 0 && self.provider_segment_id <= 0x000f_ffff
            && self.binding_generation != 0
    }
}

/// Whether the parts of a plan that stand once fit together and fit the node.
pub open spec fn frame_valid(f: NamespacedRoutedFabricPlanView, node_id: Seq<char>) -> bool {
    &&& f.local_host == node_id
    &&& f.local_host.len() > 0
    &&& !is_unspecified(f.local_fabric_transport_ip)
    &&& !is_loopback(f.local_fabric_transport_ip)
    &&& f.local_fabric_generation != 0
    &&& 0 < f.tenant_mtu <= f.local_fabric_mtu <= f.local_underlay_mtu
    &&& f.directory_generation != 0
    &&& f.policy_generation != 0
    &&& encode_utf8(f.proxy_mac).len() == 17
    &&& f.encapsulation.realm_id == f.realm_id
    &&& f.encapsulation.valid()
    &&& f.directory.realm_id == f.realm_id
    &&& f.directory.prefix == f.realm_prefix
    &&& f.directory.directory_generation == f.directory_generation
    &&& f.directory.proxy_mac == f.proxy_mac
}

fn frame_ok(f: &NamespacedRoutedFabricPlan, node_id: &str) -> (r: bool)
    ensures
        r == frame_valid(f@, node_id@),
{
    same(f.local_host.as_str(), node_id) && !f.local_host.as_str().is_empty()
        && !is_unusable_transport(f.local_fabric_transport_ip) && f.local_fabric_generation != 0
        && f.tenant_mtu != 0 && f.tenant_mtu <= f.local_fabric_mtu && f.local_fabric_mtu
        <= f.local_underlay_mtu && f.directory_generation != 0 && f.policy_generation != 0
        && f.proxy_mac.as_str().as_bytes().len() == 17 && f.encapsulation.realm_id == f.realm_id
        && f.encapsulation.is_valid() && f.directory.realm_id == f.realm_id && f.directory.prefix
        == f.realm_prefix && f.directory.directory_generation == f.directory_generation && same(
        f.directory.proxy_mac.as_str(),
        f.proxy_mac.as_str(),
    )
}

/// Whether all endpoints of a realm have addresses of its prefix.
pub open spec fn entries_inside(entries: Seq<EndpointLocationView>, prefix: Ipv4Prefix) -> bool {
    forall|i: int| 0 <= i < entries.len() ==> prefix.has((#[trigger] entries[i]).fixed_ip)
}

fn entries_ok(f: &NamespacedRoutedFabricPlan) -> (r: bool)
    ensures
        r == entries_inside(f@.directory.entries, f@.realm_prefix),
{
    let ghost es = f@.directory.entries;
    for i in 0..f.directory.entries.len()
        invariant
            es == f@.directory.entries,
            es == views(f.directory.entries@),
            forall|k: int| 0 <= k < i ==> f@.realm_prefix.has((#[trigger] es[k]).fixed_ip),
    {
        assert(es[i as int] == f.directory.entries@[i as int]@);
        if !f.realm_prefix.contains(f.directory.entries[i].fixed_ip) {
            return false;
        }
    }
    true
}

/// Whether all policies have identities of their own and endpoints of the realm.
pub open spec fn policies_known(ps: Seq<PolicyIntent>, entries: Seq<EndpointLocationView>) -> bool {
    &&& forall|i: int|
        0 <= i < ps.len() ==> (#[trigger] ps[i]).id != 0 && ps[i].endpoint_id != 0 && locate(
            entries,
            ps[i].endpoint_id,
        ) is Some
    &&& forall|i: int, j: int| 0 <= i < j < ps.len() ==> (#[trigger] ps[i]).id != (#[trigger] ps[j]).id
}

fn policies_ok(f: &NamespacedRoutedFabricPlan) -> (r: bool)
    ensures
        r == policies_known(f@.policies, f@.directory.entries),
{
    let ghost ps = f@.policies;
    for i in 0..f.policies.len()
        invariant
            ps == f@.policies,
            ps == views(f.policies@),
            forall|k: int|
                0 <= k < i ==> (#[trigger] ps[k]).id != 0 && ps[k].endpoint_id != 0 && locate(
                    f@.directory.entries,
                    ps[k].endpoint_id,
                ) is Some,
            forall|k: int, j: int| 0 <= k < j < i ==> (#[trigger] ps[k]).id != (#[trigger] ps[j]).id,
    {
        let p = f.policies[i];
        assert(ps[i as int] == p);
        if p.id == 0 || p.endpoint_id == 0 || f.directory.location(p.endpoint_id).is_none() {
            return false;
        }
        for k in 0..i
            invariant
                i < f.policies.len(),
                ps == f@.policies,
                ps == views(f.policies@),
                p == ps[i as int],
                forall|j: int| 0 <= j < k ==> (#[trigger] ps[j]).id != p.id,
        {
            assert(ps[k as int] == f.policies@[k as int]);
            if f.policies[k].id == p.id {
                return false;
            }
        }
    }
    true
}

/// Whether all defaults are complete and of different endpoints of the realm.
pub open spec fn defaults_known(
    ds: Seq<PolicyDefaultIntent>,
    entries: Seq<EndpointLocationView>,
) -> bool {
    &&& forall|i: int|
        0 <= i < ds.len() ==> (#[trigger] ds[i]).policy_id != 0 && ds[i].endpoint_id != 0
            && ds[i].generation != 0 && ds[i].stateful_mode == PolicyStatefulMode::Stateful
            && locate(entries, ds[i].endpoint_id) is Some
    &&& forall|i: int, j: int|
        0 <= i < j < ds.len() ==> (#[trigger] ds[i]).endpoint_id != (#[trigger] ds[j]).endpoint_id
}

fn defaults_ok(f: &NamespacedRoutedFabricPlan) -> (r: bool)
    ensures
        r == defaults_known(f@.policy_defaults, f@.directory.entries),
{
    let ghost ds = f@.policy_defaults;
    for i in 0..f.policy_defaults.len()
        invariant
            ds == f@.policy_defaults,
            ds == views(f.policy_defaults@),
            forall|k: int|
                0 <= k < i ==> (#[trigger] ds[k]).policy_id != 0 && ds[k].endpoint_id != 0
                    && ds[k].generation != 0 && ds[k].stateful_mode == PolicyStatefulMode::Stateful
                    && locate(f@.directory.entries, ds[k].endpoint_id) is Some,
            forall|k: int, j: int|
                0 <= k < j < i ==> (#[trigger] ds[k]).endpoint_id != (#[trigger] ds[j]).endpoint_id,
    {
        let d = f.policy_defaults[i];
        assert(ds[i as int] == d);
        if d.policy_id == 0 || d.endpoint_id == 0 || d.generation == 0 || d.stateful_mode
            != PolicyStatefulMode::Stateful || f.directory.location(d.endpoint_id).is_none() {
            return false;
        }
        for k in 0..i
            invariant
                i < f.policy_defaults.len(),
                ds == f@.policy_defaults,
                ds == views(f.policy_defaults@),
                d == ds[i as int],
                forall|j: int| 0 <= j < k ==> (#[trigger] ds[j]).endpoint_id != d.endpoint_id,
        {
            assert(ds[k as int] == f.policy_defaults@[k as int]);
            if f.policy_defaults[k].endpoint_id == d.endpoint_id {
                return false;
            }
        }
    }
    true
}

/// Whether a route leads to one endpoint of the realm on the host where the endpoint is.
pub open spec fn route_valid(f: NamespacedRoutedFabricPlanView, route: FabricEndpointRouteView) -> bool {
    &&& route.destination.prefix_len == 32
    &&& route.realm_id == f.realm_id
    &&& route.target_host.len() > 0
    &&& !is_unspecified(route.target_fabric_transport_ip)
    &&& !is_loopback(route.target_fabric_transport_ip)
    &&& route.endpoint_generation != 0
    &&& route.placement_generation != 0
    &&& route.realm_binding_generation == f.encapsulation.binding_generation
    &&& route.fabric_generation != 0
    &&& locate(f.directory.entries, route.endpoint_id) matches Some(entry) && entry.fixed_ip
        == route.destination.network && entry.selected_host == route.target_host
}

/// Whether a plan has a peer for a route.
pub open spec fn route_has_peer(peers: Seq<FabricPeerView>, route: FabricEndpointRouteView) -> bool {
    exists|i: int|
        0 <= i < peers.len() && (#[trigger] peers[i]).host_id == route.target_host
            && peers[i].fabric_transport_ip == route.target_fabric_transport_ip
}

/// Whether all routes are sound, lead to different endpoints and have peers.
pub open spec fn routes_valid(f: NamespacedRoutedFabricPlanView) -> bool {
    let rs = f.routes;
    &&& forall|i: int|
        0 <= i < rs.len() ==> route_valid(f, #[trigger] rs[i]) && route_has_peer(f.peers, rs[i])
    &&& forall|i: int, j: int|
        0 <= i < j < rs.len() ==> (#[trigger] rs[i]).destination != (#[trigger] rs[j]).destination
            && rs[i].endpoint_id != rs[j].endpoint_id
}

fn route_ok(f: &NamespacedRoutedFabricPlan, route: &FabricEndpointRoute) -> (r: bool)
    ensures
        r == route_valid(f@, route@),
{
    if route.destination.prefix_len != 32 || route.realm_id != f.realm_id
        || route.target_host.as_str().is_empty() || is_unusable_transport(
        route.target_fabric_transport_ip,
    ) || route.endpoint_generation == 0 || route.placement_generation == 0
        || route.realm_binding_generation != f.encapsulation.binding_generation
        || route.fabric_generation == 0 {
        return false;
    }
    match f.directory.location(route.endpoint_id) {
        None => false,
        Some(entry) => entry.fixed_ip == route.destination.network && same(
            entry.selected_host.as_str(),
            route.target_host.as_str(),
        ),
    }
}

fn peer_for_route(peers: &Vec<FabricPeer>, route: &FabricEndpointRoute) -> (r: bool)
    ensures
        r == route_has_peer(views(peers@), route@),
{
    let ghost ps = views(peers@);
    for i in 0..peers.len()
        invariant
            ps == views(peers@),
            forall|k: int|
                0 <= k < i ==> !((#[trigger] ps[k]).host_id == route@.target_host
                    && ps[k].fabric_transport_ip == route@.target_fabric_transport_ip),
    {
        assert(ps[i as int] == peers@[i as int]@);
        if same(peers[i].host_id.as_str(), route.target_host.as_str())
            && peers[i].fabric_transport_ip == route.target_fabric_transport_ip {
            return true;
        }
    }
    false
}

fn routes_ok(f: &NamespacedRoutedFabricPlan) -> (r: bool)
    ensures
        r == routes_valid(f@),
{
    let ghost rs = f@.routes;
    for i in 0..f.routes.len()
        invariant
            rs == f@.routes,
            rs == views(f.routes@),
            forall|k: int|
                0 <= k < i ==> route_valid(f@, #[trigger] rs[k]) && route_has_peer(
                    f@.peers,
                    rs[k],
                ),
            forall|k: int, j: int|
                0 <= k < j < i ==> (#[trigger] rs[k]).destination != (#[trigger] rs[j]).destination
                    && rs[k].endpoint_id != rs[j].endpoint_id,
    {
        let route = &f.routes[i];
        assert(rs[i as int] == route@);
        if !route_ok(f, route) || !peer_for_route(&f.peers, route) {
            return false;
        }
        for k in 0..i
            invariant
                i < f.routes.len(),
                rs == f@.routes,
                rs == views(f.routes@),
                route@ == rs[i as int],
                forall|j: int|
                    0 <= j < k ==> (#[trigger] rs[j]).destination != route@.destination
                        && rs[j].endpoint_id != route@.endpoint_id,
        {
            assert(rs[k as int] == f.routes@[k as int]@);
            if f.routes[k].destination == route.destination || f.routes[k].endpoint_id
                == route.endpoint_id {
                return false;
            }
        }
    }
    true
}

/// Whether a peer is complete and another host than the local one.
pub open spec fn peer_complete(f: NamespacedRoutedFabricPlanView, peer: FabricPeerView) -> bool {
    &&& peer.host_id.len() > 0
    &&& peer.host_id != f.local_host
    &&& peer.public_key.len() > 0
    &&& peer.underlay_endpoint.len() > 0
    &&& !is_unspecified(peer.fabric_transport_ip)
    &&& !is_loopback(peer.fabric_transport_ip)
    &&& peer.fabric_generation != 0
}

/// Whether some route leads to a peer.
pub open spec fn peer_has_route(routes: Seq<FabricEndpointRouteView>, peer: FabricPeerView) -> bool {
    exists|i: int|
        0 <= i < routes.len() && (#[trigger] routes[i]).target_host == peer.host_id
            && routes[i].target_fabric_transport_ip == peer.fabric_transport_ip
}

/// Whether all peers are complete, different from each other and have routes.
pub open spec fn peers_valid(f: NamespacedRoutedFabricPlanView) -> bool {
    let ps = f.peers;
    &&& forall|i: int|
        0 <= i < ps.len() ==> peer_complete(f, #[trigger] ps[i]) && peer_has_route(f.routes, ps[i])
    &&& forall|i: int, j: int|
        0 <= i < j < ps.len() ==> (#[trigger] ps[i]).host_id != (#[trigger] ps[j]).host_id
            && ps[i].fabric_transport_ip != ps[j].fabric_transport_ip
}

fn peer_ok(f: &NamespacedRoutedFabricPlan, peer: &FabricPeer) -> (r: bool)
    ensures
        r == peer_complete(f@, peer@),
{
    !peer.host_id.as_str().is_empty() && !same(peer.host_id.as_str(), f.local_host.as_str())
        && !peer.public_key.as_str().is_empty() && !peer.underlay_endpoint.as_str().is_empty()
        && !is_unusable_transport(peer.fabric_transport_ip) && peer.fabric_generation != 0
}

fn route_for_peer(routes: &Vec<FabricEndpointRoute>, peer: &FabricPeer) -> (r: bool)
    ensures
        r == peer_has_route(views(routes@), peer@),
{
    let ghost rs = views(routes@);
    for i in 0..routes.len()
        invariant
            rs == views(routes@),
            forall|k: int|
                0 <= k < i ==> !((#[trigger] rs[k]).target_host == peer@.host_id
                    && rs[k].target_fabric_transport_ip == peer@.fabric_transport_ip),
    {
        assert(rs[i as int] == routes@[i as int]@);
        if same(routes[i].target_host.as_str(), peer.host_id.as_str())
            && routes[i].target_fabric_transport_ip == peer.fabric_transport_ip {
            return true;
        }
    }
    false
}

fn peers_ok(f: &NamespacedRoutedFabricPlan) -> (r: bool)
    ensures
        r == peers_valid(f@),
{
    let ghost ps = f@.peers;
    for i in 0..f.peers.len()
        invariant
            ps == f@.peers,
            ps == views(f.peers@),
            forall|k: int|
                0 <= k < i ==> peer_complete(f@, #[trigger] ps[k]) && peer_has_route(
                    f@.routes,
                    ps[k],
                ),
            forall|k: int, j: int|
                0 <= k < j < i ==> (#[trigger] ps[k]).host_id != (#[trigger] ps[j]).host_id
                    && ps[k].fabric_transport_ip != ps[j].fabric_transport_ip,
    {
        let peer = &f.peers[i];
        assert(ps[i as int] == peer@);
        if !peer_ok(f, peer) || !route_for_peer(&f.routes, peer) {
            return false;
        }
        for k in 0..i
            invariant
                i < f.peers.len(),
                ps == f@.peers,
                ps == views(f.peers@),
                peer@ == ps[i as int],
                forall|j: int|
                    0 <= j < k ==> (#[trigger] ps[j]).host_id != peer@.host_id
                        && ps[j].fabric_transport_ip != peer@.fabric_transport_ip,
        {
            assert(ps[k as int] == f.peers@[k as int]@);
            if same(f.peers[k].host_id.as_str(), peer.host_id.as_str())
                || f.peers[k].fabric_transport_ip == peer.fabric_transport_ip {
                return false;
            }
        }
    }
    true
}

/// Whether the plan of a realm can be admitted to a node.
pub open spec fn fabric_admissible(f: NamespacedRoutedFabricPlanView, node_id: Seq<char>) -> bool {
    &&& frame_valid(f, node_id)
    &&& entries_inside(f.directory.entries, f.realm_prefix)
    &&& policies_known(f.policies, f.directory.entries)
    &&& defaults_known(f.policy_defaults, f.directory.entries)
    &&& bindings_valid(f.public_bindings, f.directory.entries)
    &&& routes_valid(f)
    &&& peers_valid(f)
}

/// What validating the fabric part of a plan comes to.
pub open spec fn fabric_verdict(plan: NodeNetworkPlanView) -> Result<(), NetworkPlanError> {
    match plan.fabric {
        None => Ok(()),
        Some(f) => if fabric_admissible(f, plan.node_id) {
            Ok(())
        } else {
            Err(NetworkPlanError::InvalidFabricPlan)
        },
    }
}

impl NodeNetworkPlan {
    /// Validates the plan of a realm before it is admitted to the executor of a node. A valid
    /// fingerprint alone is no authorization.
    pub fn validate_fabric(&self) -> (r: Result<(), NetworkPlanError>)
        ensures
            r == fabric_verdict(self@),
    {
        match &self.fabric {
            None => Ok(()),
            Some(f) => {
                if frame_ok(f, self.node_id.as_str()) && entries_ok(f) && policies_ok(f)
                    && defaults_ok(f) && validate_public_plan(f).is_ok() && routes_ok(f)
                    && peers_ok(f) {
                    Ok(())
                } else {
                    Err(NetworkPlanError::InvalidFabricPlan)
                }
            },
        }
    }

    /// Attaches the plan of a realm and signs the whole plan anew.
    pub fn with_fabric(self, fabric: NamespacedRoutedFabricPlan) -> (r: Result<
        NodeNetworkPlan,
        NetworkPlanError,
    >)
        ensures
            plan_view(r) == (if fabric_admissible(fabric@, self@.node_id) {
                Ok(signed(NodeNetworkPlanView { fabric: Some(fabric@), ..self@ }))
            } else {
                Err(NetworkPlanError::InvalidFabricPlan)
            }),
    {
        let mut plan = self;
        plan.fabric = Some(fabric);
        match plan.validate_fabric() {
            Err(e) => return Err(e),
            Ok(_) => {},
        }
        plan.fingerprint_sha256 = fingerprint_of(&plan);
        Ok(plan)
    }
}

} // verus!
