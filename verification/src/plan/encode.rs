//! The canonical encoding of plans.
use super::types::{NetworkPlanIntent, NetworkPlanIntentView, ResourceGeneration};
use crate::domain::{EgressIntent, GatewayIntent, RouteIntent};
use crate::fabric::plan::{
    EndpointLocation, EndpointLocationView, FabricEndpointRoute, FabricEndpointRouteView,
    FabricPeer, FabricPeerView, NamespacedRoutedFabricPlan, NamespacedRoutedFabricPlanView,
    RealmEncapsulationBinding, RealmEndpointDirectory, RealmEndpointDirectoryView,
};
use crate::identity::{id_text, id_text_of};
use crate::json::{
    json_binding, json_binding_of, json_bindings, json_bindings_of, json_bool, json_bool_of,
    json_field, json_field_of, json_id, json_id_of, json_ip, json_ip_of, json_list, json_list_of,
    json_object, json_object_of, json_opt_ip, json_opt_ip_of, json_policies, json_policies_of,
    json_policy, json_policy_default, json_policy_default_of, json_policy_defaults,
    json_policy_defaults_of, json_policy_of, json_prefix, json_prefix_of, json_text, json_text_of,
    quoted, quoted_of, Texts,
};
use crate::model::views;
use crate::render::{decimal, decimal_of};
use vstd::prelude::*;

verus! {

/// A route.
pub open spec fn json_route(v: RouteIntent) -> Seq<char> {
    json_object(
        Seq::empty()
            .push(json_field("destination"@, json_prefix(v.destination)))
            .push(json_field("next_hop"@, json_opt_ip(v.next_hop))),
    )
}

/// Computes [`json_route`].
pub fn json_route_of(x: &RouteIntent) -> (r: String)
    ensures
        r@ == json_route(x@),
{
    json_object_of(
        &Texts::none()
            .push(json_field_of("destination", json_prefix_of(x.destination).as_str()))
            .push(json_field_of("next_hop", json_opt_ip_of(x.next_hop).as_str())),
    )
}

/// A gateway.
pub open spec fn json_gateway(v: GatewayIntent) -> Seq<char> {
    json_object(
        Seq::empty()
            .push(json_field("destination"@, json_prefix(v.destination)))
            .push(json_field("gateway"@, json_ip(v.gateway)))
            .push(json_field("external"@, json_bool(v.external))),
    )
}

/// Computes [`json_gateway`].
pub fn json_gateway_of(x: &GatewayIntent) -> (r: String)
    ensures
        r@ == json_gateway(x@),
{
    json_object_of(
        &Texts::none()
            .push(json_field_of("destination", json_prefix_of(x.destination).as_str()))
            .push(json_field_of("gateway", json_ip_of(x.gateway).as_str()))
            .push(json_field_of("external", json_bool_of(x.external).as_str())),
    )
}

/// A way to an external realm.
pub open spec fn json_egress(v: EgressIntent) -> Seq<char> {
    json_object(
        Seq::empty()
            .push(json_field("external_realm_id"@, json_id(v.external_realm_id)))
            .push(json_field("enabled"@, json_bool(v.enabled)))
            .push(json_field("nat"@, json_bool(v.nat))),
    )
}

/// Computes [`json_egress`].
pub fn json_egress_of(x: &EgressIntent) -> (r: String)
    ensures
        r@ == json_egress(x@),
{
    json_object_of(
        &Texts::none()
            .push(json_field_of("external_realm_id", json_id_of(x.external_realm_id).as_str()))
            .push(json_field_of("enabled", json_bool_of(x.enabled).as_str()))
            .push(json_field_of("nat", json_bool_of(x.nat).as_str())),
    )
}

/// A peer.
pub open spec fn json_peer(v: FabricPeerView) -> Seq<char> {
    json_object(
        Seq::empty()
            .push(json_field("host_id"@, json_text(v.host_id)))
            .push(json_field("public_key"@, json_text(v.public_key)))
            .push(json_field("underlay_endpoint"@, json_text(v.underlay_endpoint)))
            .push(json_field("fabric_transport_ip"@, json_ip(v.fabric_transport_ip)))
            .push(json_field("fabric_generation"@, decimal(v.fabric_generation as nat))),
    )
}

/// Computes [`json_peer`].
pub fn json_peer_of(x: &FabricPeer) -> (r: String)
    ensures
        r@ == json_peer(x@),
{
    json_object_of(
        &Texts::none()
            .push(json_field_of("host_id", json_text_of(x.host_id.as_str()).as_str()))
            .push(json_field_of("public_key", json_text_of(x.public_key.as_str()).as_str()))
            .push(json_field_of("underlay_endpoint", json_text_of(x.underlay_endpoint.as_str()).as_str()))
            .push(json_field_of("fabric_transport_ip", json_ip_of(x.fabric_transport_ip).as_str()))
            .push(json_field_of("fabric_generation", decimal_of(x.fabric_generation as u128).as_str())),
    )
}

/// Peers.
pub open spec fn json_peers(vs: Seq<FabricPeerView>) -> Seq<char> {
    json_list(vs.map_values(|v: FabricPeerView| json_peer(v)))
}

/// Computes [`json_peers`].
pub fn json_peers_of(xs: &Vec<FabricPeer>) -> (r: String)
    ensures
        r@ == json_peers(views(xs@)),
{
    let mut out = Texts::none();
    let ghost all = views(xs@).map_values(|v: FabricPeerView| json_peer(v));
    for i in 0..xs.len()
        invariant
            all == views(xs@).map_values(|v: FabricPeerView| json_peer(v)),
            out@ == all.take(i as int),
    {
        assert(views(xs@)[i as int] == xs@[i as int]@);
        out = out.push(json_peer_of(&xs[i]));
        assert(out@ =~= all.take(i + 1));
    }
    assert(all.take(all.len() as int) =~= all);
    json_list_of(&out.list)
}

/// A route to an endpoint.
pub open spec fn json_fabric_route(v: FabricEndpointRouteView) -> Seq<char> {
    json_object(
        Seq::empty()
            .push(json_field("realm_id"@, json_id(v.realm_id)))
            .push(json_field("destination"@, json_prefix(v.destination)))
            .push(json_field("endpoint_id"@, json_id(v.endpoint_id)))
            .push(json_field("target_host"@, json_text(v.target_host)))
            .push(json_field("target_fabric_transport_ip"@, json_ip(v.target_fabric_transport_ip)))
            .push(json_field("endpoint_generation"@, decimal(v.endpoint_generation as nat)))
            .push(json_field("placement_generation"@, decimal(v.placement_generation as nat)))
            .push(json_field("realm_binding_generation"@, decimal(v.realm_binding_generation as nat)))
            .push(json_field("fabric_generation"@, decimal(v.fabric_generation as nat))),
    )
}

/// Computes [`json_fabric_route`].
pub fn json_fabric_route_of(x: &FabricEndpointRoute) -> (r: String)
    ensures
        r@ == json_fabric_route(x@),
{
    json_object_of(
        &Texts::none()
            .push(json_field_of("realm_id", json_id_of(x.realm_id).as_str()))
            .push(json_field_of("destination", json_prefix_of(x.destination).as_str()))
            .push(json_field_of("endpoint_id", json_id_of(x.endpoint_id).as_str()))
            .push(json_field_of("target_host", json_text_of(x.target_host.as_str()).as_str()))
            .push(json_field_of("target_fabric_transport_ip", json_ip_of(x.target_fabric_transport_ip).as_str()))
            .push(json_field_of("endpoint_generation", decimal_of(x.endpoint_generation as u128).as_str()))
            .push(json_field_of("placement_generation", decimal_of(x.placement_generation as u128).as_str()))
            .push(json_field_of("realm_binding_generation", decimal_of(x.realm_binding_generation as u128).as_str()))
            .push(json_field_of("fabric_generation", decimal_of(x.fabric_generation as u128).as_str())),
    )
}

/// Routes to endpoints.
pub open spec fn json_fabric_routes(vs: Seq<FabricEndpointRouteView>) -> Seq<char> {
    json_list(vs.map_values(|v: FabricEndpointRouteView| json_fabric_route(v)))
}

/// Computes [`json_fabric_routes`].
pub fn json_fabric_routes_of(xs: &Vec<FabricEndpointRoute>) -> (r: String)
    ensures
        r@ == json_fabric_routes(views(xs@)),
{
    let mut out = Texts::none();
    let ghost all = views(xs@).map_values(|v: FabricEndpointRouteView| json_fabric_route(v));
    for i in 0..xs.len()
        invariant
            all == views(xs@).map_values(|v: FabricEndpointRouteView| json_fabric_route(v)),
            out@ == all.take(i as int),
    {
        assert(views(xs@)[i as int] == xs@[i as int]@);
        out = out.push(json_fabric_route_of(&xs[i]));
        assert(out@ =~= all.take(i + 1));
    }
    assert(all.take(all.len() as int) =~= all);
    json_list_of(&out.list)
}

/// The location of an endpoint.
pub open spec fn json_location(v: EndpointLocationView) -> Seq<char> {
    json_object(
        Seq::empty()
            .push(json_field("endpoint_id"@, json_id(v.endpoint_id)))
            .push(json_field("project_id"@, json_text(v.project_id)))
            .push(json_field("realm_id"@, json_id(v.realm_id)))
            .push(json_field("fixed_ip"@, json_ip(v.fixed_ip)))
            .push(json_field("mac"@, json_text(v.mac)))
            .push(json_field("selected_host"@, json_text(v.selected_host)))
            .push(json_field("endpoint_generation"@, decimal(v.endpoint_generation as nat)))
            .push(json_field("placement_generation"@, decimal(v.placement_generation as nat))),
    )
}

/// Computes [`json_location`].
pub fn json_location_of(x: &EndpointLocation) -> (r: String)
    ensures
        r@ == json_location(x@),
{
    json_object_of(
        &Texts::none()
            .push(json_field_of("endpoint_id", json_id_of(x.endpoint_id).as_str()))
            .push(json_field_of("project_id", json_text_of(x.project_id.as_str()).as_str()))
            .push(json_field_of("realm_id", json_id_of(x.realm_id).as_str()))
            .push(json_field_of("fixed_ip", json_ip_of(x.fixed_ip).as_str()))
            .push(json_field_of("mac", json_text_of(x.mac.as_str()).as_str()))
            .push(json_field_of("selected_host", json_text_of(x.selected_host.as_str()).as_str()))
            .push(json_field_of("endpoint_generation", decimal_of(x.endpoint_generation as u128).as_str()))
            .push(json_field_of("placement_generation", decimal_of(x.placement_generation as u128).as_str())),
    )
}

/// Locations of endpoints.
pub open spec fn json_locations(vs: Seq<EndpointLocationView>) -> Seq<char> {
    json_list(vs.map_values(|v: EndpointLocationView| json_location(v)))
}

/// Computes [`json_locations`].
pub fn json_locations_of(xs: &Vec<EndpointLocation>) -> (r: String)
    ensures
        r@ == json_locations(views(xs@)),
{
    let mut out = Texts::none();
    let ghost all = views(xs@).map_values(|v: EndpointLocationView| json_location(v));
    for i in 0..xs.len()
        invariant
            all == views(xs@).map_values(|v: EndpointLocationView| json_location(v)),
            out@ == all.take(i as int),
    {
        assert(views(xs@)[i as int] == xs@[i as int]@);
        out = out.push(json_location_of(&xs[i]));
        assert(out@ =~= all.take(i + 1));
    }
    assert(all.take(all.len() as int) =~= all);
    json_list_of(&out.list)
}

/// The directory of a realm.
pub open spec fn json_directory(v: RealmEndpointDirectoryView) -> Seq<char> {
    json_object(
        Seq::empty()
            .push(json_field("realm_id"@, json_id(v.realm_id)))
            .push(json_field("prefix"@, json_prefix(v.prefix)))
            .push(json_field("directory_generation"@, decimal(v.directory_generation as nat)))
            .push(json_field("proxy_mac"@, json_text(v.proxy_mac)))
            .push(json_field("entries"@, json_locations(v.entries))),
    )
}

/// Computes [`json_directory`].
pub fn json_directory_of(x: &RealmEndpointDirectory) -> (r: String)
    ensures
        r@ == json_directory(x@),
{
    json_object_of(
        &Texts::none()
            .push(json_field_of("realm_id", json_id_of(x.realm_id).as_str()))
            .push(json_field_of("prefix", json_prefix_of(x.prefix).as_str()))
            .push(json_field_of("directory_generation", decimal_of(x.directory_generation as u128).as_str()))
            .push(json_field_of("proxy_mac", json_text_of(x.proxy_mac.as_str()).as_str()))
            .push(json_field_of("entries", json_locations_of(&x.entries).as_str())),
    )
}

/// The segment of a realm.
pub open spec fn json_encapsulation(v: RealmEncapsulationBinding) -> Seq<char> {
    json_object(
        Seq::empty()
            .push(json_field("fabric_domain_id"@, json_id(v.fabric_domain_id)))
            .push(json_field("realm_id"@, json_id(v.realm_id)))
            .push(json_field("provider_kind"@, quoted("Geneve"@)))
            .push(json_field("provider_segment_id"@, decimal(v.provider_segment_id as nat)))
            .push(json_field("binding_generation"@, decimal(v.binding_generation as nat))),
    )
}

/// Computes [`json_encapsulation`].
pub fn json_encapsulation_of(x: &RealmEncapsulationBinding) -> (r: String)
    ensures
        r@ == json_encapsulation(x@),
{
    json_object_of(
        &Texts::none()
            .push(json_field_of("fabric_domain_id", json_id_of(x.fabric_domain_id).as_str()))
            .push(json_field_of("realm_id", json_id_of(x.realm_id).as_str()))
            .push(json_field_of("provider_kind", quoted_of("Geneve").as_str()))
            .push(json_field_of("provider_segment_id", decimal_of(x.provider_segment_id as u128).as_str()))
            .push(json_field_of("binding_generation", decimal_of(x.binding_generation as u128).as_str())),
    )
}

/// The plan of a realm.
pub open spec fn json_fabric(v: NamespacedRoutedFabricPlanView) -> Seq<char> {
    json_object(
        Seq::empty()
            .push(json_field("local_host"@, json_text(v.local_host)))
            .push(json_field("local_fabric_transport_ip"@, json_ip(v.local_fabric_transport_ip)))
            .push(json_field("local_fabric_generation"@, decimal(v.local_fabric_generation as nat)))
            .push(json_field("local_underlay_mtu"@, decimal(v.local_underlay_mtu as nat)))
            .push(json_field("local_fabric_mtu"@, decimal(v.local_fabric_mtu as nat)))
            .push(json_field("realm_id"@, json_id(v.realm_id)))
            .push(json_field("realm_prefix"@, json_prefix(v.realm_prefix)))
            .push(json_field("encapsulation"@, json_encapsulation(v.encapsulation)))
            .push(json_field("directory_generation"@, decimal(v.directory_generation as nat)))
            .push(json_field("directory"@, json_directory(v.directory)))
            .push(json_field("proxy_mac"@, json_text(v.proxy_mac)))
            .push(json_field("tenant_mtu"@, decimal(v.tenant_mtu as nat)))
            .push(json_field("policy_generation"@, decimal(v.policy_generation as nat)))
            .push(json_field("policies"@, json_policies(v.policies)))
            .push(json_field("policy_defaults"@, json_policy_defaults(v.policy_defaults)))
            .push(json_field("public_bindings"@, json_bindings(v.public_bindings)))
            .push(json_field("routes"@, json_fabric_routes(v.routes)))
            .push(json_field("peers"@, json_peers(v.peers))),
    )
}

/// Computes [`json_fabric`].
pub fn json_fabric_of(x: &NamespacedRoutedFabricPlan) -> (r: String)
    ensures
        r@ == json_fabric(x@),
{
    json_object_of(
        &Texts::none()
            .push(json_field_of("local_host", json_text_of(x.local_host.as_str()).as_str()))
            .push(json_field_of("local_fabric_transport_ip", json_ip_of(x.local_fabric_transport_ip).as_str()))
            .push(json_field_of("local_fabric_generation", decimal_of(x.local_fabric_generation as u128).as_str()))
            .push(json_field_of("local_underlay_mtu", decimal_of(x.local_underlay_mtu as u128).as_str()))
            .push(json_field_of("local_fabric_mtu", decimal_of(x.local_fabric_mtu as u128).as_str()))
            .push(json_field_of("realm_id", json_id_of(x.realm_id).as_str()))
            .push(json_field_of("realm_prefix", json_prefix_of(x.realm_prefix).as_str()))
            .push(json_field_of("encapsulation", json_encapsulation_of(&x.encapsulation).as_str()))
            .push(json_field_of("directory_generation", decimal_of(x.directory_generation as u128).as_str()))
            .push(json_field_of("directory", json_directory_of(&x.directory).as_str()))
            .push(json_field_of("proxy_mac", json_text_of(x.proxy_mac.as_str()).as_str()))
            .push(json_field_of("tenant_mtu", decimal_of(x.tenant_mtu as u128).as_str()))
            .push(json_field_of("policy_generation", decimal_of(x.policy_generation as u128).as_str()))
            .push(json_field_of("policies", json_policies_of(&x.policies).as_str()))
            .push(json_field_of("policy_defaults", json_policy_defaults_of(&x.policy_defaults).as_str()))
            .push(json_field_of("public_bindings", json_bindings_of(&x.public_bindings).as_str()))
            .push(json_field_of("routes", json_fabric_routes_of(&x.routes).as_str()))
            .push(json_field_of("peers", json_peers_of(&x.peers).as_str())),
    )
}

/// A variant with contents.
pub open spec fn json_variant(name: Seq<char>, contents: Seq<char>) -> Seq<char> {
    json_object(Seq::empty().push(json_field(name, contents)))
}

fn json_variant_of(name: &str, contents: &str) -> (r: String)
    ensures
        r@ == json_variant(name@, contents@),
{
    json_object_of(&Texts::none().push(json_field_of(name, contents)))
}

/// An intent of a plan.
#[verifier::opaque]
pub open spec fn json_intent(v: NetworkPlanIntentView) -> Seq<char> {
    match v {
        NetworkPlanIntentView::AddressRealm { realm_id, prefix, gateway } => json_variant(
            "AddressRealm"@,
            json_object(
                Seq::empty().push(json_field("realm_id"@, json_id(realm_id))).push(
                    json_field("prefix"@, json_prefix(prefix)),
                ).push(json_field("gateway"@, json_ip(gateway))),
            ),
        ),
        NetworkPlanIntentView::EndpointAttachment { endpoint_id, mac, fixed_ip, generation } => json_variant(
            "EndpointAttachment"@,
            json_object(
                Seq::empty().push(json_field("endpoint_id"@, json_id(endpoint_id))).push(
                    json_field("mac"@, json_text(mac)),
                ).push(json_field("fixed_ip"@, json_ip(fixed_ip))).push(
                    json_field("generation"@, decimal(generation as nat)),
                ),
            ),
        ),
        NetworkPlanIntentView::AddressAssignment { endpoint_id, address, generation } => json_variant(
            "AddressAssignment"@,
            json_object(
                Seq::empty().push(json_field("endpoint_id"@, json_id(endpoint_id))).push(
                    json_field("address"@, json_ip(address)),
                ).push(json_field("generation"@, decimal(generation as nat))),
            ),
        ),
        NetworkPlanIntentView::Route(x) => json_variant("Route"@, json_route(x)),
        NetworkPlanIntentView::Gateway(x) => json_variant("Gateway"@, json_gateway(x)),
        NetworkPlanIntentView::Egress(x) => json_variant("Egress"@, json_egress(x)),
        NetworkPlanIntentView::PublicAddressBinding(x) => json_variant(
            "PublicAddressBinding"@,
            json_binding(x),
        ),
        NetworkPlanIntentView::Policy(x) => json_variant("Policy"@, json_policy(x)),
        NetworkPlanIntentView::PolicyDefault(x) => json_variant(
            "PolicyDefault"@,
            json_policy_default(x),
        ),
    }
}

/// Computes [`json_intent`].
pub fn json_intent_of(x: &NetworkPlanIntent) -> (r: String)
    ensures
        r@ == json_intent(x@),
{
    proof {
        reveal(json_intent);
    }
    match x {
        NetworkPlanIntent::AddressRealm { realm_id, prefix, gateway } => json_variant_of(
            "AddressRealm",
            json_object_of(
                &Texts::none().push(json_field_of("realm_id", json_id_of(*realm_id).as_str())).push(
                    json_field_of("prefix", json_prefix_of(*prefix).as_str()),
                ).push(json_field_of("gateway", json_ip_of(*gateway).as_str())),
            ).as_str(),
        ),
        NetworkPlanIntent::EndpointAttachment { endpoint_id, mac, fixed_ip, generation } => json_variant_of(
            "EndpointAttachment",
            json_object_of(
                &Texts::none().push(
                    json_field_of("endpoint_id", json_id_of(*endpoint_id).as_str()),
                ).push(json_field_of("mac", json_text_of(mac.as_str()).as_str())).push(
                    json_field_of("fixed_ip", json_ip_of(*fixed_ip).as_str()),
                ).push(json_field_of("generation", decimal_of(*generation as u128).as_str())),
            ).as_str(),
        ),
        NetworkPlanIntent::AddressAssignment { endpoint_id, address, generation } => json_variant_of(
            "AddressAssignment",
            json_object_of(
                &Texts::none().push(
                    json_field_of("endpoint_id", json_id_of(*endpoint_id).as_str()),
                ).push(json_field_of("address", json_ip_of(*address).as_str())).push(
                    json_field_of("generation", decimal_of(*generation as u128).as_str()),
                ),
            ).as_str(),
        ),
        NetworkPlanIntent::Route(x) => json_variant_of("Route", json_route_of(x).as_str()),
        NetworkPlanIntent::Gateway(x) => json_variant_of("Gateway", json_gateway_of(x).as_str()),
        NetworkPlanIntent::Egress(x) => json_variant_of("Egress", json_egress_of(x).as_str()),
        NetworkPlanIntent::PublicAddressBinding(x) => json_variant_of(
            "PublicAddressBinding",
            json_binding_of(x).as_str(),
        ),
        NetworkPlanIntent::Policy(x) => json_variant_of("Policy", json_policy_of(*x).as_str()),
        NetworkPlanIntent::PolicyDefault(x) => json_variant_of(
            "PolicyDefault",
            json_policy_default_of(*x).as_str(),
        ),
    }
}

/// The intents of a plan.
pub open spec fn json_intents(vs: Seq<NetworkPlanIntentView>) -> Seq<char> {
    json_list(vs.map_values(|v: NetworkPlanIntentView| json_intent(v)))
}

/// Computes [`json_intents`].
pub fn json_intents_of(xs: &Vec<NetworkPlanIntent>) -> (r: String)
    ensures
        r@ == json_intents(views(xs@)),
{
    let mut out = Texts::none();
    let ghost all = views(xs@).map_values(|v: NetworkPlanIntentView| json_intent(v));
    for i in 0..xs.len()
        invariant
            all == views(xs@).map_values(|v: NetworkPlanIntentView| json_intent(v)),
            out@ == all.take(i as int),
    {
        assert(views(xs@)[i as int] == xs@[i as int]@);
        out = out.push(json_intent_of(&xs[i]));
        assert(out@ =~= all.take(i + 1));
    }
    assert(all.take(all.len() as int) =~= all);
    json_list_of(&out.list)
}

/// The generations of a plan's resources.
pub open spec fn json_generations(gs: Seq<ResourceGeneration>) -> Seq<char> {
    json_object(
        gs.map_values(
            |g: ResourceGeneration| json_field(id_text(g.id), decimal(g.generation as nat)),
        ),
    )
}

/// Computes [`json_generations`].
pub fn json_generations_of(gs: &Vec<ResourceGeneration>) -> (r: String)
    ensures
        r@ == json_generations(views(gs@)),
{
    let mut out = Texts::none();
    let ghost all = views(gs@).map_values(
        |g: ResourceGeneration| json_field(id_text(g.id), decimal(g.generation as nat)),
    );
    for i in 0..gs.len()
        invariant
            all == views(gs@).map_values(
                |g: ResourceGeneration| json_field(id_text(g.id), decimal(g.generation as nat)),
            ),
            out@ == all.take(i as int),
    {
        let g = gs[i];
        out = out.push(
            json_field_of(id_text_of(g.id).as_str(), decimal_of(g.generation as u128).as_str()),
        );
        assert(out@ =~= all.take(i + 1));
    }
    assert(all.take(all.len() as int) =~= all);
    json_object_of(&out)
}

} // verus!
